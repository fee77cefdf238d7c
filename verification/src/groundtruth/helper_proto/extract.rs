//! Extraction of helper `arg_type` contracts from kernel C source.
//!
//! Every `struct bpf_func_proto <name>_proto = { ... };` definition is read for
//! its `.argN_type = ...` fields. Only argument types that pin an argument to
//! exactly one verifier reg-type family become contracts; everything else is
//! dropped, which the diff stage reads as "cannot corroborate", never as "no
//! violation".
use vstd::prelude::*;
use crate::groundtruth::helper_proto::HelperProtoModel;
use crate::verifier_log::fields::{lemma_find_char_bounds, lemma_find_from_bounds};
use crate::text::{
    chars_of, digit_val, digit_val_exec, eq_lit, find_char, find_char_from, find_chars_from,
    find_from, lines, lines_of, occurs_at, slice_chars, starts_with_at, starts_with_lit,
    string_of_all, trim, trim_chars,
};

verus! {

/// Whether `char::is_alphanumeric` holds of `c` (Unicode `Alphabetic` or `Numeric`).
pub uninterp spec fn is_alphanumeric(c: char) -> bool;

/// `char::is_alphanumeric`: the contract names the result (`is_alphanumeric`)
/// as a function of the character alone, and states the ASCII part (exactly the
/// digits and the Latin letters); the Unicode tables beyond ASCII are not restated.
#[verifier::external_body]
fn char_is_alphanumeric(c: char) -> (b: bool)
    ensures
        b == is_alphanumeric(c),
        c < '\u{80}' ==> (b <==> (('0' <= c && c <= '9') || ('a' <= c && c <= 'z') || ('A'
            <= c && c <= 'Z'))),
{
    c.is_alphanumeric()
}

/// The marker that opens a helper prototype.
pub open spec fn proto_mark() -> Seq<char> {
    "struct bpf_func_proto "@
}

/// The argument types promoted to a checkable contract: those that pin an
/// argument to exactly one verifier reg-type family. `ARG_ANYTHING` checks
/// nothing; memory, map key/value and BTF/socket pointers legitimately take
/// several families, so asserting one for them would manufacture findings.
pub open spec fn single_family(base: Seq<char>) -> Option<Seq<char>> {
    if base == "ARG_CONST_MAP_PTR"@ {
        Some("map_ptr"@)
    } else if base == "ARG_PTR_TO_CTX"@ {
        Some("ctx"@)
    } else if base == "ARG_MEM_SIZE"@ || base == "ARG_MEM_SIZE_OR_ZERO"@ || base
        == "ARG_CONST_SIZE"@ || base == "ARG_CONST_SIZE_OR_ZERO"@ || base
        == "ARG_CONST_ALLOC_SIZE_OR_ZERO"@ {
        Some("scalar"@)
    } else if base == "ARG_PTR_TO_RINGBUF_MEM"@ {
        Some("ringbuf_mem"@)
    } else if base == "ARG_PTR_TO_CONST_STR"@ {
        Some("map_value"@)
    } else {
        None
    }
}

/// The base type of an `.argN_type` expression: what precedes the first `|`,
/// trimmed. Flags after `|` are modifiers, not families.
pub open spec fn arg_base(e: Seq<char>) -> Seq<char> {
    match find_char_from(e, '|', 0) {
        Some(i) => trim(e.take(i)),
        None => trim(e),
    }
}

/// The reg-type family an `.argN_type` expression pins its argument to, if any.
pub open spec fn regtype_of(e: Seq<char>) -> Option<Seq<char>> {
    single_family(arg_base(e))
}

/// `s` with every trailing `,` removed.
pub open spec fn trim_commas(s: Seq<char>) -> Seq<char>
    decreases s.len(),
{
    if s.len() > 0 && s.last() == ',' {
        trim_commas(s.drop_last())
    } else {
        s
    }
}

/// The second `=`-separated piece of `s` (what `s.split('=').nth(1)` yields).
pub open spec fn second_piece(s: Seq<char>) -> Option<Seq<char>> {
    match find_char_from(s, '=', 0) {
        Some(j) => if 0 <= j < s.len() {
            match find_char_from(s, '=', j + 1) {
                Some(k) => if j + 1 <= k <= s.len() {
                    Some(s.subrange(j + 1, k))
                } else {
                    None
                },
                None => Some(s.subrange(j + 1, s.len() as int)),
            }
        } else {
            None
        },
        None => None,
    }
}

/// The contract one body line declares: `(arg_index, arg_type, regtype)` for a
/// `.argN_type = <expr>,` line whose type pins a single family. `argN` is
/// 1-based in the kernel and 0-based here.
pub open spec fn arg_of_line(line: Seq<char>) -> Option<(u8, Seq<char>, Seq<char>)> {
    let t = trim(line);
    if ".arg"@.is_prefix_of(t) && t.len() > 4 && digit_val(t[4], 10) is Some {
        let d = digit_val(t[4], 10)->0;
        let aa = t.skip(4);
        match second_piece(aa) {
            Some(v) => {
                let value = trim(trim_commas(trim(v)));
                match regtype_of(value) {
                    Some(rt) => Some(((if d == 0 { 0 } else { d - 1 }) as u8, value, rt)),
                    None => None,
                }
            },
            None => None,
        }
    } else {
        None
    }
}

/// The contracts declared by the lines `ls` of one prototype body, in order.
pub open spec fn body_args(ls: Seq<Seq<char>>) -> Seq<(u8, Seq<char>, Seq<char>)>
    decreases ls.len(),
{
    if ls.len() == 0 {
        Seq::empty()
    } else {
        match arg_of_line(ls.last()) {
            Some(a) => body_args(ls.drop_last()).push(a),
            None => body_args(ls.drop_last()),
        }
    }
}

/// Whether `c` may appear in a helper name.
pub open spec fn is_ident_char(c: char) -> bool {
    is_alphanumeric(c) || c == '_'
}

/// The helper a prototype name denotes: the name without its `_proto` suffix,
/// if that leaves a non-empty identifier.
pub open spec fn helper_of(name: Seq<char>) -> Option<Seq<char>> {
    if name.len() > 6 && name.subrange(name.len() - 6, name.len() as int) == "_proto"@ {
        let h = name.take(name.len() - 6);
        if forall|k: int| 0 <= k < h.len() ==> is_ident_char(#[trigger] h[k]) {
            Some(h)
        } else {
            None
        }
    } else {
        None
    }
}

/// The prototype definitions found scanning `s` from `pos`: `(name, body)` for
/// each `struct bpf_func_proto <name> = { <body> }`. A declaration (a `;`
/// before the next `{`) is skipped whole; a head without `=` is skipped past
/// its `{`; the scan ends when no marker or no `{` is left.
pub open spec fn defs_from(s: Seq<char>, pos: int) -> Seq<(Seq<char>, Seq<char>)>
    decreases s.len() - pos,
{
    if pos < 0 || pos > s.len() {
        Seq::empty()
    } else {
        match find_from(s, proto_mark(), pos) {
            Some(i) => if pos <= i && i + proto_mark().len() <= s.len() {
                let a = i + proto_mark().len();
                match find_char_from(s, '{', a) {
                    Some(open) => if a <= open < s.len() {
                        let semi = find_char_from(s, ';', a);
                        if semi is Some && a <= semi->0 < open {
                            defs_from(s, semi->0 + 1)
                        } else {
                            let eq = find_char_from(s, '=', a);
                            if eq is Some && a <= eq->0 < open {
                                match find_char_from(s, '}', open + 1) {
                                    Some(c) => if open + 1 <= c < s.len() {
                                        seq![(trim(s.subrange(a, eq->0)), s.subrange(open + 1, c))]
                                            + defs_from(s, c)
                                    } else {
                                        Seq::empty()
                                    },
                                    None => defs_from(s, open + 1),
                                }
                            } else {
                                defs_from(s, open + 1)
                            }
                        }
                    } else {
                        Seq::empty()
                    },
                    None => Seq::empty(),
                }
            } else {
                Seq::empty()
            },
            None => Seq::empty(),
        }
    }
}

/// `(helper, arg_index, arg_type, regtype)` for each contract of `args`.
pub open spec fn tag_args(h: Seq<char>, args: Seq<(u8, Seq<char>, Seq<char>)>) -> Seq<
    (Seq<char>, u8, Seq<char>, Seq<char>),
>
    decreases args.len(),
{
    if args.len() == 0 {
        Seq::empty()
    } else {
        tag_args(h, args.drop_last()).push((h, args.last().0, args.last().1, args.last().2))
    }
}

/// The contracts one definition contributes.
pub open spec fn def_contracts(d: (Seq<char>, Seq<char>)) -> Seq<
    (Seq<char>, u8, Seq<char>, Seq<char>),
> {
    match helper_of(d.0) {
        Some(h) => tag_args(h, body_args(lines(d.1))),
        None => Seq::empty(),
    }
}

/// The contracts of a sequence of definitions, in order.
pub open spec fn all_contracts(ds: Seq<(Seq<char>, Seq<char>)>) -> Seq<
    (Seq<char>, u8, Seq<char>, Seq<char>),
>
    decreases ds.len(),
{
    if ds.len() == 0 {
        Seq::empty()
    } else {
        all_contracts(ds.drop_last()) + def_contracts(ds.last())
    }
}

/// Every contract a C source text declares, in the order it declares them.
pub open spec fn text_contracts(text: Seq<char>) -> Seq<(Seq<char>, u8, Seq<char>, Seq<char>)> {
    all_contracts(defs_from(text, 0))
}

/// `m` with the arg_type of each contract of `es` set, in order.
pub open spec fn apply_types(
    m: Map<(Seq<char>, u8), Seq<char>>,
    es: Seq<(Seq<char>, u8, Seq<char>, Seq<char>)>,
) -> Map<(Seq<char>, u8), Seq<char>>
    decreases es.len(),
{
    if es.len() == 0 {
        m
    } else {
        apply_types(m, es.drop_last()).insert((es.last().0, es.last().1), es.last().2)
    }
}

/// `m` with the reg-type family of each contract of `es` set, in order.
pub open spec fn apply_regtypes(
    m: Map<(Seq<char>, u8), Seq<char>>,
    es: Seq<(Seq<char>, u8, Seq<char>, Seq<char>)>,
) -> Map<(Seq<char>, u8), Seq<char>>
    decreases es.len(),
{
    if es.len() == 0 {
        m
    } else {
        apply_regtypes(m, es.drop_last()).insert((es.last().0, es.last().1), es.last().3)
    }
}

/// The single-family table, as executable code.
fn single_family_exec(base: &Vec<char>) -> (r: Option<&'static str>)
    ensures
        match r {
            Some(s) => single_family(base@) == Some(s@),
            None => single_family(base@) is None,
        },
{
    if eq_lit(base, "ARG_CONST_MAP_PTR") {
        Some("map_ptr")
    } else if eq_lit(base, "ARG_PTR_TO_CTX") {
        Some("ctx")
    } else if eq_lit(base, "ARG_MEM_SIZE") || eq_lit(base, "ARG_MEM_SIZE_OR_ZERO") || eq_lit(
        base,
        "ARG_CONST_SIZE",
    ) || eq_lit(base, "ARG_CONST_SIZE_OR_ZERO") || eq_lit(base, "ARG_CONST_ALLOC_SIZE_OR_ZERO") {
        Some("scalar")
    } else if eq_lit(base, "ARG_PTR_TO_RINGBUF_MEM") {
        Some("ringbuf_mem")
    } else if eq_lit(base, "ARG_PTR_TO_CONST_STR") {
        Some("map_value")
    } else {
        None
    }
}

fn regtype_of_chars(e: &Vec<char>) -> (r: Option<&'static str>)
    ensures
        match r {
            Some(s) => regtype_of(e@) == Some(s@),
            None => regtype_of(e@) is None,
        },
{
    assert(e@.len() == e.len());
    proof {
        lemma_find_char_bounds(e@, '|', 0);
    }
    let base = match find_char(e, '|', 0) {
        Some(i) => {
            assert(find_char_from(e@, '|', 0) == Some(i as int));
            let head = slice_chars(e, 0, i);
            proof {
                assert(head@ =~= e@.take(i as int));
            }
            trim_chars(&head)
        },
        None => trim_chars(e),
    };
    assert(base@ == arg_base(e@));
    single_family_exec(&base)
}

/// The reg-type family an `.argN_type` expression pins its argument to: the base
/// type (before any `|` flag) looked up in the single-family table, or `None`.
pub fn arg_type_to_regtype(expr: &str) -> (r: Option<&'static str>)
    ensures
        match r {
            Some(s) => regtype_of(expr@) == Some(s@),
            None => regtype_of(expr@) is None,
        },
{
    let e = chars_of(expr);
    regtype_of_chars(&e)
}

fn trim_commas_exec(v: &Vec<char>) -> (r: Vec<char>)
    ensures
        r@ == trim_commas(v@),
{
    let mut n: usize = v.len();
    proof {
        assert(v@.take(n as int) =~= v@);
    }
    while n > 0 && v[n - 1] == ','
        invariant
            n <= v@.len(),
            trim_commas(v@.take(n as int)) == trim_commas(v@),
        decreases n,
    {
        proof {
            assert(v@.take(n as int).drop_last() =~= v@.take(n - 1));
        }
        n = n - 1;
    }
    let r = slice_chars(v, 0, n);
    proof {
        assert(r@ =~= v@.take(n as int));
    }
    r
}

fn second_piece_exec(s: &Vec<char>) -> (r: Option<Vec<char>>)
    ensures
        match r {
            Some(v) => second_piece(s@) == Some(v@),
            None => second_piece(s@) is None,
        },
{
    assert(s@.len() == s.len());
    proof {
        lemma_find_char_bounds(s@, '=', 0);
    }
    match find_char(s, '=', 0) {
        Some(j) => {
            proof {
                lemma_find_char_bounds(s@, '=', j + 1);
            }
            match find_char(s, '=', j + 1) {
                Some(k) => Some(slice_chars(s, j + 1, k)),
                None => Some(slice_chars(s, j + 1, s.len())),
            }
        },
        None => None,
    }
}

fn arg_of_line_exec(line: &Vec<char>) -> (r: Option<(u8, Vec<char>, &'static str)>)
    ensures
        match r {
            Some(x) => arg_of_line(line@) == Some((x.0, x.1@, x.2@)),
            None => arg_of_line(line@) is None,
        },
{
    let t = trim_chars(line);
    if !starts_with_lit(&t, ".arg") || t.len() <= 4 {
        proof {
            reveal_strlit(".arg");
        }
        return None;
    }
    proof {
        reveal_strlit(".arg");
    }
    let d = match digit_val_exec(t[4], 10) {
        Some(d) => d,
        None => {
            return None;
        },
    };
    let aa = slice_chars(&t, 4, t.len());
    proof {
        assert(aa@ =~= t@.skip(4));
    }
    let v = match second_piece_exec(&aa) {
        Some(v) => v,
        None => {
            return None;
        },
    };
    let v1 = trim_chars(&v);
    let v2 = trim_commas_exec(&v1);
    let value = trim_chars(&v2);
    match regtype_of_chars(&value) {
        Some(rt) => {
            let idx: u8 = if d == 0 { 0 } else { (d - 1) as u8 };
            Some((idx, value, rt))
        },
        None => None,
    }
}

fn helper_of_exec(name: &Vec<char>) -> (r: Option<Vec<char>>)
    ensures
        match r {
            Some(h) => helper_of(name@) == Some(h@),
            None => helper_of(name@) is None,
        },
{
    let n = name.len();
    if n <= 6 {
        return None;
    }
    let sfx = chars_of("_proto");
    proof {
        reveal_strlit("_proto");
    }
    if !starts_with_at(name, n - 6, &sfx) {
        proof {
            if name@.subrange(n - 6, n as int) == "_proto"@ {
                assert(occurs_at(name@, sfx@, n - 6));
            }
        }
        return None;
    }
    let h = slice_chars(name, 0, n - 6);
    proof {
        assert(h@ =~= name@.take(n - 6));
    }
    proof {
        assert(name@.subrange(n - 6, n as int) =~= sfx@);
    }
    let mut k: usize = 0;
    while k < h.len()
        invariant
            n == name@.len(),
            n > 6,
            sfx@ == "_proto"@,
            name@.subrange(n - 6, n as int) == sfx@,
            h@ == name@.take(n - 6),
            k <= h@.len(),
            forall|j: int| 0 <= j < k ==> is_ident_char(#[trigger] h@[j]),
        decreases h.len() - k,
    {
        let c = h[k];
        if !(char_is_alphanumeric(c) || c == '_') {
            proof {
                assert(!is_ident_char(h@[k as int]));
            }
            return None;
        }
        k = k + 1;
    }
    Some(h)
}

/// Reads every `const struct bpf_func_proto <name>_proto = { ... };` definition
/// of one translation unit into `model`: each `.argN_type` whose type pins a
/// single reg-type family sets that argument's arg_type and family (kernel
/// `arg1` is index 0), later definitions overriding earlier ones. Declarations
/// (`<name> __weak;`) are skipped whole, so they never swallow a following
/// definition.
pub fn extract_text(text: &str, model: &mut HelperProtoModel)
    ensures
        final(model).contracts_map() == apply_types(
            old(model).contracts_map(),
            text_contracts(text@),
        ),
        final(model).regtypes_map() == apply_regtypes(
            old(model).regtypes_map(),
            text_contracts(text@),
        ),
{
    let s = chars_of(text);
    let mark = chars_of("struct bpf_func_proto ");
    let ghost sv = s@;
    let ghost m0c = model.contracts_map();
    let ghost m0r = model.regtypes_map();
    let ghost mut done: Seq<(Seq<char>, Seq<char>)> = Seq::empty();
    proof {
        reveal_strlit("struct bpf_func_proto ");
        assert(defs_from(sv, 0) =~= done + defs_from(sv, 0));
    }
    let mut pos: usize = 0;
    loop
        invariant
            s@ == sv,
            sv == text@,
            mark@ == proto_mark(),
            pos <= s@.len(),
            defs_from(sv, 0) == done + defs_from(sv, pos as int),
            model.contracts_map() == apply_types(m0c, all_contracts(done)),
            model.regtypes_map() == apply_regtypes(m0r, all_contracts(done)),
        ensures
            model.contracts_map() == apply_types(m0c, all_contracts(defs_from(sv, 0))),
            model.regtypes_map() == apply_regtypes(m0r, all_contracts(defs_from(sv, 0))),
        decreases s@.len() - pos,
    {
        assert(s@.len() == s.len());
        proof {
            lemma_find_from_bounds(sv, proto_mark(), pos as int);
        }
        let i = match find_chars_from(&s, &mark, pos) {
            Some(i) => i,
            None => {
                proof {
                    assert(done + defs_from(sv, pos as int) =~= done);
                }
                break;
            },
        };
        let a = i + mark.len();
        proof {
            lemma_find_char_bounds(sv, '{', a as int);
            lemma_find_char_bounds(sv, ';', a as int);
            lemma_find_char_bounds(sv, '=', a as int);
        }
        let open = match find_char(&s, '{', a) {
            Some(o) => o,
            None => {
                proof {
                    assert(done + defs_from(sv, pos as int) =~= done);
                }
                break;
            },
        };
        match find_char(&s, ';', a) {
            Some(semi) => {
                if semi < open {
                    pos = semi + 1;
                    continue;
                }
            },
            None => {},
        }
        let eq = match find_char(&s, '=', a) {
            Some(e) => {
                if e < open {
                    e
                } else {
                    pos = open + 1;
                    continue;
                }
            },
            None => {
                pos = open + 1;
                continue;
            },
        };
        proof {
            lemma_find_char_bounds(sv, '}', open + 1);
        }
        let close = match find_char(&s, '}', open + 1) {
            Some(c) => c,
            None => {
                pos = open + 1;
                continue;
            },
        };
        let head = slice_chars(&s, a, eq);
        let name = trim_chars(&head);
        let body = slice_chars(&s, open + 1, close);
        let ghost d = (name@, body@);
        proof {
            assert(defs_from(sv, pos as int) == seq![d] + defs_from(sv, close as int));
            assert(done + defs_from(sv, pos as int) =~= done.push(d) + defs_from(sv, close as int));
            assert(all_contracts(done.push(d)) == all_contracts(done) + def_contracts(d)) by {
                assert(done.push(d).drop_last() =~= done);
            }
        }
        match helper_of_exec(&name) {
            Some(h) => {
                let ls = lines_of(&body);
                let ghost all_ls = lines(body@);
                let ghost base = all_contracts(done);
                let hs = string_of_all(&h);
                proof {
                    assert(base + tag_args(h@, body_args(all_ls.take(0))) =~= base);
                }
                let mut k: usize = 0;
                while k < ls.len()
                    invariant
                        k <= ls@.len(),
                        ls@.len() == all_ls.len(),
                        forall|j: int| 0 <= j < ls@.len() ==> #[trigger] ls@[j]@ == all_ls[j],
                        hs@ == h@,
                        model.contracts_map() == apply_types(
                            m0c,
                            base + tag_args(h@, body_args(all_ls.take(k as int))),
                        ),
                        model.regtypes_map() == apply_regtypes(
                            m0r,
                            base + tag_args(h@, body_args(all_ls.take(k as int))),
                        ),
                    decreases ls.len() - k,
                {
                    proof {
                        assert(all_ls.take(k + 1).drop_last() =~= all_ls.take(k as int));
                        assert(all_ls.take(k + 1).last() == all_ls[k as int]);
                    }
                    match arg_of_line_exec(&ls[k]) {
                        Some(x) => {
                            let value = string_of_all(&x.1);
                            model.insert_both(hs.as_str(), x.0, value.as_str(), x.2);
                            proof {
                                let prev = base + tag_args(h@, body_args(all_ls.take(k as int)));
                                let next = base + tag_args(h@, body_args(all_ls.take(k + 1)));
                                let args = body_args(all_ls.take(k as int));
                                assert(body_args(all_ls.take(k + 1)) == args.push((x.0, x.1@, x.2@)));
                                assert(args.push((x.0, x.1@, x.2@)).drop_last() =~= args);
                                assert(tag_args(h@, args.push((x.0, x.1@, x.2@))) == tag_args(h@, args).push((h@, x.0, x.1@, x.2@)));
                                assert(next =~= prev.push((h@, x.0, x.1@, x.2@)));
                                assert(next.drop_last() =~= prev);
                            }
                        },
                        None => {},
                    }
                    k = k + 1;
                }
                proof {
                    assert(all_ls.take(all_ls.len() as int) =~= all_ls);
                }
            },
            None => {
                proof {
                    assert(def_contracts(d) =~= Seq::empty());
                    assert(all_contracts(done) + def_contracts(d) =~= all_contracts(done));
                }
            },
        }
        proof {
            done = done.push(d);
        }
        pos = close;
    }
}

/// The contract's reg-type family is the one its arg_type's base type pins.
pub open spec fn pins_its_family(e: (Seq<char>, u8, Seq<char>, Seq<char>)) -> bool {
    regtype_of(e.2) == Some(e.3)
}

proof fn lemma_body_args_pin(ls: Seq<Seq<char>>)
    ensures
        forall|k: int|
            0 <= k < body_args(ls).len() ==> regtype_of((#[trigger] body_args(ls)[k]).1) == Some(
                body_args(ls)[k].2,
            ),
    decreases ls.len(),
{
    if ls.len() > 0 {
        lemma_body_args_pin(ls.drop_last());
    }
}

proof fn lemma_tag_args_pin(h: Seq<char>, args: Seq<(u8, Seq<char>, Seq<char>)>)
    requires
        forall|k: int| 0 <= k < args.len() ==> regtype_of((#[trigger] args[k]).1) == Some(args[k].2),
    ensures
        forall|k: int| 0 <= k < tag_args(h, args).len() ==> pins_its_family(
            #[trigger] tag_args(h, args)[k],
        ),
    decreases args.len(),
{
    if args.len() > 0 {
        let a = args.drop_last();
        assert forall|k: int| 0 <= k < a.len() implies regtype_of((#[trigger] a[k]).1) == Some(
            a[k].2,
        ) by {
            assert(a[k] == args[k]);
        }
        lemma_tag_args_pin(h, a);
        let t = tag_args(h, args);
        let ta = tag_args(h, a);
        assert(t == ta.push((h, args.last().0, args.last().1, args.last().2)));
        assert(regtype_of(args[args.len() - 1].1) == Some(args[args.len() - 1].2));
        assert forall|k: int| 0 <= k < t.len() implies pins_its_family(#[trigger] t[k]) by {
            if k < ta.len() {
                assert(t[k] == ta[k]);
            } else {
                assert(t[k] == (h, args.last().0, args.last().1, args.last().2));
            }
        }
    }
}

proof fn lemma_all_contracts_pin(ds: Seq<(Seq<char>, Seq<char>)>)
    ensures
        forall|k: int| 0 <= k < all_contracts(ds).len() ==> pins_its_family(
            #[trigger] all_contracts(ds)[k],
        ),
    decreases ds.len(),
{
    if ds.len() > 0 {
        lemma_all_contracts_pin(ds.drop_last());
        let d = ds.last();
        match helper_of(d.0) {
            Some(h) => {
                lemma_body_args_pin(lines(d.1));
                lemma_tag_args_pin(h, body_args(lines(d.1)));
            },
            None => {},
        }
        let prev = all_contracts(ds.drop_last());
        let cur = def_contracts(d);
        assert forall|k: int| 0 <= k < all_contracts(ds).len() implies pins_its_family(
            #[trigger] all_contracts(ds)[k],
        ) by {
            if k < prev.len() {
                assert(all_contracts(ds)[k] == prev[k]);
            } else {
                assert(all_contracts(ds)[k] == cur[k - prev.len()]);
            }
        }
    }
}

/// Only single-family argument types become contracts: every contract extracted
/// from a source text pairs its arg_type with exactly the reg-type family that
/// the type's base pins, so a multi-family or unconstrained argument is never
/// given an expectation the verifier could be held to.
pub proof fn lemma_extracted_contracts_pin_one_family(text: Seq<char>)
    ensures
        forall|k: int| 0 <= k < text_contracts(text).len() ==> pins_its_family(
            #[trigger] text_contracts(text)[k],
        ),
{
    lemma_all_contracts_pin(defs_from(text, 0));
}

} // verus!
