//! The total orders of pre-release and build texts, as the `semver` crate
//! documents and defines them: dot-separated identifiers compared left to
//! right; an identifier of digits only is compared numerically and is less
//! than any other; other identifiers are compared in ASCII order; a longer
//! list of equal identifiers is greater. A release (empty pre-release text)
//! is greater than any pre-release.

use vstd::prelude::*;

use crate::text::{all_digits, is_digit, text_lt};

verus! {

/// The dot-separated fields of a text (one empty field for an empty text).
pub open spec fn dot_fields(s: Seq<char>) -> Seq<Seq<char>>
    decreases s.len(),
{
    if s.len() == 0 {
        seq![Seq::<char>::empty()]
    } else {
        let f = dot_fields(s.drop_first());
        if s[0] == '.' {
            seq![Seq::<char>::empty()] + f
        } else {
            seq![seq![s[0]] + f[0]] + f.drop_first()
        }
    }
}

/// Fields joined again with dots.
pub open spec fn join_dots(f: Seq<Seq<char>>) -> Seq<char>
    decreases f.len(),
{
    if f.len() <= 1 {
        if f.len() == 0 { Seq::empty() } else { f[0] }
    } else {
        f[0] + seq!['.'] + join_dots(f.drop_first())
    }
}

/// A character an identifier may hold: an ASCII letter or digit, or `-`.
pub open spec fn ident_char(c: char) -> bool {
    ('A' <= c && c <= 'Z') || ('a' <= c && c <= 'z') || is_digit(c) || c == '-'
}

/// A well-formed identifier: non-empty, of identifier characters only; in
/// a pre-release, a numeric identifier has no leading zero.
pub open spec fn ident_ok(x: Seq<char>, pre: bool) -> bool {
    &&& x.len() > 0
    &&& forall|i: int| 0 <= i < x.len() ==> ident_char(#[trigger] x[i])
    &&& !(pre && x.len() > 1 && all_digits(x) && x[0] == '0')
}

/// A text that `semver::Prerelease::new` accepts: empty, or dot-separated
/// well-formed identifiers without leading zeros in numeric ones.
pub open spec fn pre_valid(s: Seq<char>) -> bool {
    s.len() == 0 || forall|i: int| 0 <= i < dot_fields(s).len() ==> ident_ok(#[trigger] dot_fields(s)[i], true)
}

/// A text that `semver::BuildMetadata::new` accepts: empty, or
/// dot-separated well-formed identifiers (leading zeros allowed).
pub open spec fn build_valid(s: Seq<char>) -> bool {
    s.len() == 0 || forall|i: int| 0 <= i < dot_fields(s).len() ==> ident_ok(#[trigger] dot_fields(s)[i], false)
}

/// Three-way comparison of numbers.
pub open spec fn int_order(a: int, b: int) -> int {
    if a < b { -1 } else if a == b { 0 } else { 1 }
}

/// Three-way comparison of texts in character order.
pub open spec fn text_order(a: Seq<char>, b: Seq<char>) -> int {
    if a == b { 0 } else if text_lt(a, b) { -1 } else { 1 }
}

/// A digit string without its leading zeros.
pub open spec fn trim_zeros(s: Seq<char>) -> Seq<char>
    decreases s.len(),
{
    if s.len() > 0 && s[0] == '0' { trim_zeros(s.drop_first()) } else { s }
}

/// Compares two numeric identifiers: in a pre-release by length, then by
/// text; in build metadata by value (length and text without leading
/// zeros), then by length (`0 < 00 < 1`).
pub open spec fn numeric_order(x: Seq<char>, y: Seq<char>, build: bool) -> int {
    if build {
        let c = int_order(trim_zeros(x).len() as int, trim_zeros(y).len() as int);
        if c != 0 {
            c
        } else {
            let d = text_order(trim_zeros(x), trim_zeros(y));
            if d != 0 { d } else { int_order(x.len() as int, y.len() as int) }
        }
    } else {
        let c = int_order(x.len() as int, y.len() as int);
        if c != 0 { c } else { text_order(x, y) }
    }
}

/// Compares two identifiers: numeric ones numerically and below all
/// others; others in ASCII order.
pub open spec fn field_order(x: Seq<char>, y: Seq<char>, build: bool) -> int {
    if all_digits(x) && all_digits(y) {
        numeric_order(x, y, build)
    } else if all_digits(x) {
        -1
    } else if all_digits(y) {
        1
    } else {
        text_order(x, y)
    }
}

/// Compares identifier lists left to right; a longer list of equal
/// identifiers is greater.
pub open spec fn fields_order(xs: Seq<Seq<char>>, ys: Seq<Seq<char>>, build: bool) -> int
    decreases xs.len(),
{
    if xs.len() == 0 {
        if ys.len() == 0 { 0 } else { -1 }
    } else if ys.len() == 0 {
        1
    } else {
        let c = field_order(xs[0], ys[0], build);
        if c != 0 { c } else { fields_order(xs.drop_first(), ys.drop_first(), build) }
    }
}

/// `semver::Prerelease`'s order: a release (empty text) above every
/// pre-release; pre-releases by their identifiers.
pub open spec fn pre_precedence(a: Seq<char>, b: Seq<char>) -> int {
    if a.len() == 0 && b.len() == 0 {
        0
    } else if a.len() == 0 {
        1
    } else if b.len() == 0 {
        -1
    } else {
        fields_order(dot_fields(a), dot_fields(b), false)
    }
}

/// `semver::BuildMetadata`'s order: by identifiers.
pub open spec fn build_precedence(a: Seq<char>, b: Seq<char>) -> int {
    fields_order(dot_fields(a), dot_fields(b), true)
}

/// A three-way comparison is a total order: it answers `-1`, `0` or `1`,
/// swapping the arguments negates it, it answers `0` only for equal
/// arguments, and "at most" is transitive.
pub open spec fn order_laws(x: Seq<char>, y: Seq<char>, z: Seq<char>, c: spec_fn(Seq<char>, Seq<char>) -> int) -> bool {
    &&& -1 <= c(x, y) <= 1
    &&& c(x, y) == -c(y, x)
    &&& (c(x, y) == 0 <==> x == y)
    &&& (c(x, y) <= 0 && c(y, z) <= 0 ==> c(x, z) <= 0)
}

proof fn lemma_text_lt_total(a: Seq<char>, b: Seq<char>)
    ensures
        a != b ==> text_lt(a, b) || text_lt(b, a),
        !(text_lt(a, b) && text_lt(b, a)),
    decreases a.len(),
{
    if a.len() > 0 && b.len() > 0 && a[0] == b[0] {
        lemma_text_lt_total(a.drop_first(), b.drop_first());
        if a.drop_first() == b.drop_first() {
            assert(a =~= seq![a[0]] + a.drop_first());
            assert(b =~= seq![b[0]] + b.drop_first());
        }
    } else if a.len() == 0 && b.len() == 0 {
        assert(a =~= b);
    }
}

proof fn lemma_text_order(x: Seq<char>, y: Seq<char>, z: Seq<char>)
    ensures
        order_laws(x, y, z, |a: Seq<char>, b: Seq<char>| text_order(a, b)),
{
    lemma_text_lt_total(x, y);
    lemma_text_lt_total(y, z);
    lemma_text_lt_total(x, z);
    crate::text::lemma_text_lt_irreflexive(x);
    if text_lt(x, y) && text_lt(y, z) {
        crate::text::lemma_text_lt_transitive(x, y, z);
    }
}

proof fn lemma_trim_zeros(s: Seq<char>)
    ensures
        trim_zeros(s).len() <= s.len(),
        trim_zeros(s) =~= s.subrange(s.len() - trim_zeros(s).len(), s.len() as int),
        forall|i: int| 0 <= i < s.len() - trim_zeros(s).len() ==> s[i] == '0',
    decreases s.len(),
{
    if s.len() > 0 && s[0] == '0' {
        lemma_trim_zeros(s.drop_first());
        let t = s.drop_first();
        assert forall|i: int| 0 <= i < s.len() - trim_zeros(s).len() implies s[i] == '0' by {
            if i > 0 {
                assert(s[i] == t[i - 1]);
            }
        }
    }
}

proof fn lemma_numeric_order(x: Seq<char>, y: Seq<char>, z: Seq<char>, build: bool)
    ensures
        order_laws(x, y, z, |a: Seq<char>, b: Seq<char>| numeric_order(a, b, build)),
{
    lemma_text_order(x, y, z);
    lemma_text_order(trim_zeros(x), trim_zeros(y), trim_zeros(z));
    lemma_text_order(y, x, z);
    lemma_text_order(trim_zeros(y), trim_zeros(x), trim_zeros(z));
    if build {
        lemma_trim_zeros(x);
        lemma_trim_zeros(y);
        if numeric_order(x, y, true) == 0 {
            assert(x =~= y) by {
                assert forall|i: int| 0 <= i < x.len() implies x[i] == y[i] by {
                    let k = x.len() - trim_zeros(x).len();
                    if i >= k {
                        assert(x[i] == trim_zeros(x)[i - k]);
                        assert(y[i] == trim_zeros(y)[i - k]);
                    }
                }
            }
        }
    }
}

proof fn lemma_field_order(x: Seq<char>, y: Seq<char>, z: Seq<char>, build: bool)
    ensures
        order_laws(x, y, z, |a: Seq<char>, b: Seq<char>| field_order(a, b, build)),
{
    lemma_text_order(x, y, z);
    lemma_numeric_order(x, y, z, build);
}

proof fn lemma_fields_order(xs: Seq<Seq<char>>, ys: Seq<Seq<char>>, zs: Seq<Seq<char>>, build: bool)
    ensures
        -1 <= fields_order(xs, ys, build) <= 1,
        fields_order(xs, ys, build) == -fields_order(ys, xs, build),
        fields_order(xs, ys, build) == 0 <==> xs == ys,
        fields_order(xs, ys, build) <= 0 && fields_order(ys, zs, build) <= 0 ==> fields_order(xs, zs, build) <= 0,
    decreases xs.len(),
{
    if xs.len() > 0 && ys.len() > 0 {
        let zt = if zs.len() > 0 { zs.drop_first() } else { zs };
        let z0 = if zs.len() > 0 { zs[0] } else { ys[0] };
        lemma_field_order(xs[0], ys[0], z0, build);
        lemma_field_order(ys[0], z0, xs[0], build);
        lemma_field_order(xs[0], z0, ys[0], build);
        lemma_fields_order(xs.drop_first(), ys.drop_first(), zt, build);
        if xs.drop_first() == ys.drop_first() && xs[0] == ys[0] {
            assert(xs =~= seq![xs[0]] + xs.drop_first());
            assert(ys =~= seq![ys[0]] + ys.drop_first());
        }
        if xs == ys {
            assert(xs.drop_first() =~= ys.drop_first());
        }
    } else if xs.len() == 0 && ys.len() == 0 {
        assert(xs =~= ys);
    }
}

/// Joining the fields of a text with dots gives the text back.
pub proof fn lemma_dot_fields_join(s: Seq<char>)
    ensures
        dot_fields(s).len() >= 1,
        join_dots(dot_fields(s)) == s,
    decreases s.len(),
{
    if s.len() > 0 {
        let r = s.drop_first();
        lemma_dot_fields_join(r);
        let f = dot_fields(r);
        if s[0] == '.' {
            let g = seq![Seq::<char>::empty()] + f;
            assert(g.drop_first() =~= f);
            assert(s =~= Seq::<char>::empty() + seq!['.'] + r);
        } else {
            let g = seq![seq![s[0]] + f[0]] + f.drop_first();
            if f.len() == 1 {
                assert(s =~= seq![s[0]] + f[0]);
            } else {
                assert(g.drop_first() =~= f.drop_first());
                assert(join_dots(f) == f[0] + seq!['.'] + join_dots(f.drop_first()));
                assert(s =~= seq![s[0]] + r);
                assert(r == f[0] + seq!['.'] + join_dots(f.drop_first()));
                assert(s =~= (seq![s[0]] + f[0]) + seq!['.'] + join_dots(f.drop_first()));
                assert(join_dots(g) == g[0] + seq!['.'] + join_dots(g.drop_first()));
            }
        }
    }
}

/// `semver::Prerelease`'s order is a total order.
pub proof fn lemma_pre_precedence_total(x: Seq<char>, y: Seq<char>, z: Seq<char>)
    ensures
        order_laws(x, y, z, |a: Seq<char>, b: Seq<char>| pre_precedence(a, b)),
{
    lemma_fields_order(dot_fields(x), dot_fields(y), dot_fields(z), false);
    lemma_fields_order(dot_fields(y), dot_fields(x), dot_fields(z), false);
    lemma_dot_fields_join(x);
    lemma_dot_fields_join(y);
    if x.len() == 0 && y.len() == 0 {
        assert(x =~= y);
    }
}

/// `semver::BuildMetadata`'s order is a total order.
pub proof fn lemma_build_precedence_total(x: Seq<char>, y: Seq<char>, z: Seq<char>)
    ensures
        order_laws(x, y, z, |a: Seq<char>, b: Seq<char>| build_precedence(a, b)),
{
    lemma_fields_order(dot_fields(x), dot_fields(y), dot_fields(z), true);
    lemma_dot_fields_join(x);
    lemma_dot_fields_join(y);
}

} // verus!
