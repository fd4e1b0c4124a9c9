//! The library-wide laws relating the renderer and the parser: canonical
//! version text always parses back to the value it was rendered from, and
//! text without the `v` prefix is exactly the text the parser refuses for
//! that reason.

use vstd::prelude::*;

use crate::chars::all_digits;
use crate::chars::digit_val;
use crate::chars::is_canonical_num;
use crate::chars::is_digit;
use crate::chars::num_val;
use crate::chars::spec_find;
use crate::chars::lemma_find_at;
use crate::parse::SpecParseOutcome;
use crate::parse::is_ident_char;
use crate::parse::spec_parse;
use crate::parse::spec_parse_core_pre;
use crate::parse::spec_parse_tail;
use crate::parse::valid_core;
use crate::parse::valid_label;
use crate::parse::valid_segment;
use crate::version::SemverBase;
use crate::version::SemverRC;
use crate::version::VersionInfo;
use crate::version::spec_base_str;
use crate::version::spec_dec;
use crate::version::spec_digit_char;
use crate::version::spec_rc_str;

verus! {

/// Digit characters carry their digit value.
pub proof fn lemma_digit_char_val(d: nat)
    requires
        d < 10,
    ensures
        is_digit(spec_digit_char(d)),
        digit_val(spec_digit_char(d)) == d,
{
}

/// The canonical decimal rendering is a canonical digit string and values
/// back to the number it renders.
pub proof fn lemma_dec_props(n: nat)
    ensures
        is_canonical_num(spec_dec(n)),
        num_val(spec_dec(n)) == n,
        n >= 1 ==> spec_dec(n)[0] != '0',
    decreases n,
{
    if n < 10 {
        lemma_digit_char_val(n);
        let s = spec_dec(n);
        assert(s.drop_last() =~= Seq::<char>::empty());
        assert(num_val(s) == num_val(s.drop_last()) * 10 + digit_val(s.last()));
        if n >= 1 {
            assert(digit_val(s[0]) == n);
            assert(digit_val('0') == 0);
        }
    } else {
        lemma_dec_props(n / 10);
        lemma_digit_char_val(n % 10);
        let a = spec_dec(n / 10);
        let s = spec_dec(n);
        assert(s == a + seq![spec_digit_char(n % 10)]);
        assert(s.drop_last() =~= a);
        assert(s.last() == spec_digit_char(n % 10));
        assert(num_val(s) == num_val(a) * 10 + (n % 10));
        assert(num_val(s) == (n / 10) * 10 + (n % 10));
        assert(n == (n / 10) * 10 + (n % 10)) by {
            vstd::arithmetic::div_mod::lemma_fundamental_div_mod(n as int, 10);
        }
        assert forall|k: int| 0 <= k < s.len() implies is_digit(s[k]) by {
            if k < a.len() {
                assert(s[k] == a[k]);
            } else {
                assert(s[k] == spec_digit_char(n % 10));
            }
        }
        assert(s[0] == a[0]);
        assert(a[0] != '0');
    }
}

/// The characters of canonical version text, listed so that searches for the
/// separator characters land where the renderer put them.
proof fn lemma_core_chars(a: Seq<char>, b: Seq<char>, c: Seq<char>)
    requires
        all_digits(a),
        all_digits(b),
        all_digits(c),
    ensures
        forall|j: int|
            0 <= j < (a + seq!['.'] + b + seq!['.'] + c).len() ==> is_digit(
                #[trigger] (a + seq!['.'] + b + seq!['.'] + c)[j],
            ) || (a + seq!['.'] + b + seq!['.'] + c)[j] == '.',
{
    let t = a + seq!['.'] + b + seq!['.'] + c;
    assert forall|j: int| 0 <= j < t.len() implies is_digit(t[j]) || t[j] == '.' by {
        if j < a.len() {
            assert(t[j] == a[j]);
        } else if j == a.len() {
            assert(t[j] == '.');
        } else if j < a.len() + 1 + b.len() {
            assert(t[j] == b[j - a.len() - 1]);
        } else if j == a.len() + 1 + b.len() {
            assert(t[j] == '.');
        } else {
            assert(t[j] == c[j - a.len() - b.len() - 2]);
        }
    }
}

/// A three-part canonical core is valid and its components value back to the
/// numbers they render.
proof fn lemma_core_parse(a: Seq<char>, b: Seq<char>, c: Seq<char>)
    requires
        is_canonical_num(a),
        is_canonical_num(b),
        is_canonical_num(c),
    ensures
        valid_core(a + seq!['.'] + b + seq!['.'] + c),
        num_val((a + seq!['.'] + b + seq!['.'] + c).take(
            spec_find(a + seq!['.'] + b + seq!['.'] + c, '.'),
        )) == num_val(a),
        ({
            let t = a + seq!['.'] + b + seq!['.'] + c;
            let rest = t.skip(spec_find(t, '.') + 1);
            num_val(rest.take(spec_find(rest, '.'))) == num_val(b) && num_val(
                rest.skip(spec_find(rest, '.') + 1),
            ) == num_val(c)
        }),
{
    let t = a + seq!['.'] + b + seq!['.'] + c;
    let la = a.len() as int;
    let lb = b.len() as int;
    assert forall|j: int| 0 <= j < la implies t[j] != '.' by {
        assert(t[j] == a[j]);
    }
    assert(t[la] == '.');
    lemma_find_at(t, '.', la);
    assert(t.take(la) =~= a);
    let rest = t.skip(la + 1);
    assert(rest =~= b + seq!['.'] + c);
    assert forall|j: int| 0 <= j < lb implies rest[j] != '.' by {
        assert(rest[j] == b[j]);
    }
    assert(rest[lb] == '.');
    lemma_find_at(rest, '.', lb);
    assert(rest.take(lb) =~= b);
    assert(rest.skip(lb + 1) =~= c);
}

/// Rendering a base version and parsing the text yields that version back:
/// the production round trip.
pub proof fn lemma_production_round_trip(base: SemverBase)
    ensures
        spec_parse(spec_base_str(base)) == SpecParseOutcome::Parsed(
            VersionInfo::Production(base),
        ),
{
    let a = spec_dec(base.major as nat);
    let b = spec_dec(base.minor as nat);
    let c = spec_dec(base.patch as nat);
    lemma_dec_props(base.major as nat);
    lemma_dec_props(base.minor as nat);
    lemma_dec_props(base.patch as nat);
    let s = spec_base_str(base);
    let t = a + seq!['.'] + b + seq!['.'] + c;
    assert(s[0] == 'v');
    assert(s.skip(1) =~= t);
    lemma_core_chars(a, b, c);
    assert forall|j: int| 0 <= j < t.len() implies t[j] != '+' by {
        assert(is_digit(t[j]) || t[j] == '.');
    }
    lemma_find_at(t, '+', t.len() as int);
    assert(t.take(t.len() as int) =~= t);
    assert forall|j: int| 0 <= j < t.len() implies t[j] != '-' by {
        assert(is_digit(t[j]) || t[j] == '.');
    }
    lemma_find_at(t, '-', t.len() as int);
    lemma_core_parse(a, b, c);
    assert(spec_parse_tail(t) == spec_parse_core_pre(t, false, Seq::<char>::empty()));
    assert(spec_parse_tail(t) == SpecParseOutcome::Parsed(VersionInfo::Production(base)));
}

/// Rendering a release candidate and parsing the text yields that candidate
/// back: the alpha round trip.
#[verifier::rlimit(100)]
pub proof fn lemma_alpha_round_trip(v: SemverRC)
    ensures
        spec_parse(spec_rc_str(v)) == SpecParseOutcome::Parsed(VersionInfo::Alpha(v)),
{
    let a = spec_dec(v.base.major as nat);
    let b = spec_dec(v.base.minor as nat);
    let c = spec_dec(v.base.patch as nat);
    let w = spec_dec(v.rc as nat);
    lemma_dec_props(v.base.major as nat);
    lemma_dec_props(v.base.minor as nat);
    lemma_dec_props(v.base.patch as nat);
    lemma_dec_props(v.rc as nat);
    let s = spec_rc_str(v);
    let core = a + seq!['.'] + b + seq!['.'] + c;
    let lk = core.len() as int;
    let t = core + seq!['-', 'r', 'c', '.'] + w;
    assert(s[0] == 'v');
    assert(s.skip(1) =~= t);
    lemma_core_chars(a, b, c);

    // Where each character class sits in the tail.
    assert forall|j: int| 0 <= j < t.len() implies t[j] != '+' by {
        if j < lk {
            assert(t[j] == core[j]);
            assert(is_digit(core[j]) || core[j] == '.');
        } else if j < lk + 4 {
            assert(t[j] == seq!['-', 'r', 'c', '.'][j - lk]);
        } else {
            assert(t[j] == w[j - lk - 4]);
            assert(is_digit(w[j - lk - 4]));
        }
    }
    lemma_find_at(t, '+', t.len() as int);
    assert(t.take(t.len() as int) =~= t);

    assert forall|j: int| 0 <= j < lk implies t[j] != '-' by {
        assert(t[j] == core[j]);
        assert(is_digit(core[j]) || core[j] == '.');
    }
    assert(t[lk] == '-');
    lemma_find_at(t, '-', lk);
    assert(t.take(lk) =~= core);
    lemma_core_parse(a, b, c);

    // The prerelease label is `rc.W`.
    let pre = t.skip(lk + 1);
    assert(pre =~= seq!['r', 'c', '.'] + w);
    assert(pre[0] == 'r' && pre[1] == 'c' && pre[2] == '.');
    lemma_find_at(pre, '.', 2);
    assert(pre.take(2) =~= seq!['r', 'c']);
    assert(valid_segment(seq!['r', 'c'], true)) by {
        assert(!is_digit('r'));
        assert(is_ident_char('r') && is_ident_char('c'));
    }
    let rest2 = pre.skip(3);
    assert(rest2 =~= w);
    assert forall|j: int| 0 <= j < w.len() implies w[j] != '.' by {
        assert(is_digit(w[j]));
    }
    lemma_find_at(w, '.', w.len() as int);
    assert(w.take(w.len() as int) =~= w);
    assert(valid_segment(w, true)) by {
        assert(forall|k: int| 0 <= k < w.len() ==> is_ident_char(#[trigger] w[k]));
    }
    assert(valid_label(w, true));
    assert(valid_label(pre, true));
    assert(spec_parse_tail(t) == spec_parse_core_pre(core, true, pre));
    assert(spec_parse_tail(t) == SpecParseOutcome::Parsed(VersionInfo::Alpha(v)));
}

/// The parser reports a missing prefix exactly on the texts that do not
/// start with `v`.
pub proof fn lemma_missing_prefix(s: Seq<char>)
    ensures
        (spec_parse(s) is MissingPrefix) <==> (s.len() == 0 || s[0] != 'v'),
{
}

} // verus!
