//! Output identifiers of derivatives and the guard that recognises them.
//!
//! The width marker convention is: a trailing `.jpg` of the renamed
//! identifier is replaced by `-{width}.jpg`; an identifier without that
//! extension gets `-{width}.jpg` appended. The guard looks for exactly the
//! same suffix, so every derived identifier is recognised as a derivative.

use vstd::prelude::*;
use crate::text::{chars_of, string_of};

verus! {

/// The character of a decimal digit `d < 10`.
pub open spec fn digit_char(d: nat) -> char {
    if d == 0 { '0' } else if d == 1 { '1' } else if d == 2 { '2' } else if d == 3 { '3' }
    else if d == 4 { '4' } else if d == 5 { '5' } else if d == 6 { '6' } else if d == 7 { '7' }
    else if d == 8 { '8' } else { '9' }
}

/// The decimal notation of `n`, without sign or leading zeros.
pub open spec fn decimal(n: nat) -> Seq<char>
    decreases n,
{
    if n < 10 {
        seq![digit_char(n)]
    } else {
        decimal(n / 10).push(digit_char(n % 10))
    }
}

/// The extension that derivatives carry.
pub open spec fn jpg_ext() -> Seq<char> {
    seq!['.', 'j', 'p', 'g']
}

/// The width marker of a derivative: `-{width}.jpg`.
pub open spec fn width_suffix(w: nat) -> Seq<char> {
    seq!['-'] + decimal(w) + jpg_ext()
}

pub open spec fn ends_with(s: Seq<char>, t: Seq<char>) -> bool {
    t.len() <= s.len() && s.subrange(s.len() - t.len(), s.len() as int) == t
}

/// Every occurrence of `pat` in `s` replaced by `rep`, scanning from the left
/// without overlap; an empty `pat` matches before every character and at the end.
pub open spec fn replace_all(s: Seq<char>, pat: Seq<char>, rep: Seq<char>) -> Seq<char>
    decreases s.len(),
{
    if pat.len() == 0 {
        if s.len() == 0 {
            rep
        } else {
            rep + seq![s[0]] + replace_all(s.drop_first(), pat, rep)
        }
    } else if s.len() == 0 {
        s
    } else if pat.len() <= s.len() && s.subrange(0, pat.len() as int) == pat {
        rep + replace_all(s.subrange(pat.len() as int, s.len() as int), pat, rep)
    } else {
        seq![s[0]] + replace_all(s.drop_first(), pat, rep)
    }
}

/// The rename rules applied one after another, first to last.
pub open spec fn apply_rules(s: Seq<char>, rules: Seq<(String, String)>) -> Seq<char>
    decreases rules.len(),
{
    if rules.len() == 0 {
        s
    } else {
        let last = rules.last();
        replace_all(apply_rules(s, rules.drop_last()), last.0@, last.1@)
    }
}

/// `s` without a trailing `.jpg`.
pub open spec fn stem(s: Seq<char>) -> Seq<char> {
    if ends_with(s, jpg_ext()) {
        s.subrange(0, s.len() - 4)
    } else {
        s
    }
}

/// The output identifier of the derivative of `source` at width `w`.
pub open spec fn derived_name(source: Seq<char>, rules: Seq<(String, String)>, w: nat) -> Seq<char> {
    stem(apply_rules(source, rules)) + width_suffix(w)
}

/// Whether `id` carries the width marker of one of the configured `sizes`.
pub open spec fn is_derivative(id: Seq<char>, sizes: Seq<u32>) -> bool {
    exists|i: int| 0 <= i < sizes.len() && ends_with(id, #[trigger] width_suffix(sizes[i] as nat))
}

fn digit(d: u32) -> (c: char)
    requires
        d < 10,
    ensures
        c == digit_char(d as nat),
{
    if d == 0 { '0' } else if d == 1 { '1' } else if d == 2 { '2' } else if d == 3 { '3' }
    else if d == 4 { '4' } else if d == 5 { '5' } else if d == 6 { '6' } else if d == 7 { '7' }
    else if d == 8 { '8' } else { '9' }
}

/// Appends the decimal notation of `n` to `out`.
pub fn push_decimal(out: &mut Vec<char>, n: u32)
    ensures
        final(out)@ == old(out)@ + decimal(n as nat),
    decreases n,
{
    if n < 10 {
        out.push(digit(n));
        assert(final(out)@ =~= old(out)@ + decimal(n as nat));
    } else {
        push_decimal(out, n / 10);
        out.push(digit(n % 10));
        assert(final(out)@ =~= old(out)@ + decimal(n as nat));
    }
}

/// Appends the width marker `-{w}.jpg` to `out`.
fn push_width_suffix(out: &mut Vec<char>, w: u32)
    ensures
        final(out)@ == old(out)@ + width_suffix(w as nat),
{
    out.push('-');
    push_decimal(out, w);
    out.push('.');
    out.push('j');
    out.push('p');
    out.push('g');
    assert(final(out)@ =~= old(out)@ + width_suffix(w as nat));
}

fn matches_at(s: &Vec<char>, i: usize, pat: &Vec<char>) -> (r: bool)
    requires
        i <= s@.len(),
    ensures
        r == (pat@.len() <= s@.len() - i && s@.subrange(i as int, i + pat@.len()) == pat@),
{
    let sl = s.len();
    if pat.len() > sl - i {
        return false;
    }
    let mut j: usize = 0;
    while j < pat.len()
        invariant
            sl == s@.len(),
            i <= s@.len(),
            pat@.len() <= s@.len() - i,
            j <= pat@.len(),
            s@.subrange(i as int, i + j) == pat@.subrange(0, j as int),
        decreases pat@.len() - j,
    {
        if s[i + j] != pat[j] {
            assert(s@.subrange(i as int, i + pat@.len())[j as int] != pat@[j as int]);
            return false;
        }
        j = j + 1;
        assert(s@.subrange(i as int, i + j) =~= pat@.subrange(0, j as int));
    }
    assert(pat@.subrange(0, pat@.len() as int) =~= pat@);
    true
}

fn extend(out: &mut Vec<char>, t: &Vec<char>)
    ensures
        final(out)@ == old(out)@ + t@,
{
    let mut j: usize = 0;
    while j < t.len()
        invariant
            j <= t@.len(),
            out@ == old(out)@ + t@.subrange(0, j as int),
        decreases t@.len() - j,
    {
        out.push(t[j]);
        j = j + 1;
        assert(out@ =~= old(out)@ + t@.subrange(0, j as int));
    }
    assert(t@.subrange(0, t@.len() as int) =~= t@);
}

/// Every occurrence of `pat` in `s` replaced by `rep`, as `str::replace` does.
pub fn replace_chars(s: &Vec<char>, pat: &Vec<char>, rep: &Vec<char>) -> (r: Vec<char>)
    ensures
        r@ == replace_all(s@, pat@, rep@),
{
    let n = s.len();
    let mut out: Vec<char> = Vec::new();
    let mut i: usize = 0;
    assert(s@.subrange(0, n as int) =~= s@);
    while i < n
        invariant
            n == s@.len(),
            i <= n,
            out@ + replace_all(s@.subrange(i as int, n as int), pat@, rep@) == replace_all(s@, pat@, rep@),
        decreases n - i,
    {
        let ghost rest = s@.subrange(i as int, n as int);
        let ghost prev = out@;
        if pat.len() == 0 {
            extend(&mut out, rep);
            out.push(s[i]);
            i = i + 1;
            assert(rest.drop_first() =~= s@.subrange(i as int, n as int));
            assert(out@ =~= prev + (rep@ + seq![rest[0]]));
        } else if matches_at(s, i, pat) {
            extend(&mut out, rep);
            i = i + pat.len();
            assert(rest.subrange(0, pat@.len() as int) =~= s@.subrange(i - pat@.len(), i as int));
            assert(rest.subrange(pat@.len() as int, rest.len() as int) =~= s@.subrange(i as int, n as int));
        } else {
            proof {
                if pat@.len() <= rest.len() {
                    assert(rest.subrange(0, pat@.len() as int) =~= s@.subrange(i as int, i + pat@.len()));
                }
            }
            out.push(s[i]);
            i = i + 1;
            assert(rest.drop_first() =~= s@.subrange(i as int, n as int));
            assert(out@ =~= prev + seq![rest[0]]);
        }
        assert(out@ + replace_all(s@.subrange(i as int, n as int), pat@, rep@) =~= prev + replace_all(rest, pat@, rep@));
    }
    if pat.len() == 0 {
        extend(&mut out, rep);
    }
    assert(s@.subrange(n as int, n as int) =~= Seq::<char>::empty());
    assert(out@ =~= replace_all(s@, pat@, rep@));
    out
}

/// The rename rules applied to `source` in order, each replacing every
/// occurrence of its match with its replacement.
pub fn apply_rules_to(source: &str, rules: &Vec<(String, String)>) -> (r: String)
    ensures
        r@ == apply_rules(source@, rules@),
{
    let mut cur = chars_of(source);
    let mut i: usize = 0;
    while i < rules.len()
        invariant
            i <= rules@.len(),
            cur@ == apply_rules(source@, rules@.subrange(0, i as int)),
        decreases rules@.len() - i,
    {
        let pat = chars_of(rules[i].0.as_str());
        let rep = chars_of(rules[i].1.as_str());
        cur = replace_chars(&cur, &pat, &rep);
        i = i + 1;
        assert(rules@.subrange(0, i as int).drop_last() =~= rules@.subrange(0, i - 1));
    }
    assert(rules@.subrange(0, rules@.len() as int) =~= rules@);
    string_of(&cur)
}

fn ends_with_chars(s: &Vec<char>, t: &Vec<char>) -> (r: bool)
    ensures
        r == ends_with(s@, t@),
{
    if t.len() > s.len() {
        return false;
    }
    matches_at(s, s.len() - t.len(), t)
}

fn jpg_chars() -> (r: Vec<char>)
    ensures
        r@ == jpg_ext(),
{
    let r = vec!['.', 'j', 'p', 'g'];
    assert(r@ =~= jpg_ext());
    r
}

/// The output identifier of the derivative of `source` at width `width`: the
/// rename rules applied in order, then the width marker `-{width}.jpg` in
/// place of a trailing `.jpg`.
pub fn derive_name(source: &str, rules: &Vec<(String, String)>, width: u32) -> (r: String)
    ensures
        r@ == derived_name(source@, rules@, width as nat),
{
    let renamed = chars_of(apply_rules_to(source, rules).as_str());
    let ext = jpg_chars();
    let keep: usize = if ends_with_chars(&renamed, &ext) { renamed.len() - 4 } else { renamed.len() };
    let mut out: Vec<char> = Vec::new();
    let mut i: usize = 0;
    while i < keep
        invariant
            keep <= renamed@.len(),
            i <= keep,
            out@ == renamed@.subrange(0, i as int),
        decreases keep - i,
    {
        out.push(renamed[i]);
        i = i + 1;
        assert(out@ =~= renamed@.subrange(0, i as int));
    }
    assert(renamed@.subrange(0, renamed@.len() as int) =~= renamed@);
    push_width_suffix(&mut out, width);
    string_of(&out)
}

/// Whether `source` already names a derivative: it ends with the width
/// marker `-{w}.jpg` of one of the configured `sizes`. A source that ends so
/// by coincidence is treated as a derivative as well.
pub fn is_already_derivative(source: &str, sizes: &Vec<u32>) -> (r: bool)
    ensures
        r == is_derivative(source@, sizes@),
{
    let id = chars_of(source);
    let mut i: usize = 0;
    while i < sizes.len()
        invariant
            i <= sizes@.len(),
            id@ == source@,
            forall|k: int| 0 <= k < i ==> !ends_with(source@, #[trigger] width_suffix(sizes@[k] as nat)),
        decreases sizes@.len() - i,
    {
        let mut suffix: Vec<char> = Vec::new();
        push_width_suffix(&mut suffix, sizes[i]);
        assert(suffix@ =~= width_suffix(sizes@[i as int] as nat));
        if ends_with_chars(&id, &suffix) {
            return true;
        }
        i = i + 1;
    }
    false
}

/// Every identifier derived at a configured width is recognised by the guard,
/// so a derivative written back where sources arrive is not processed again.
pub proof fn lemma_derived_names_are_guarded(source: Seq<char>, rules: Seq<(String, String)>, sizes: Seq<u32>)
    ensures
        forall|i: int| 0 <= i < sizes.len() ==> is_derivative(#[trigger] derived_name(source, rules, sizes[i] as nat), sizes),
{
    assert forall|i: int| 0 <= i < sizes.len() implies is_derivative(#[trigger] derived_name(source, rules, sizes[i] as nat), sizes) by {
        let id = derived_name(source, rules, sizes[i] as nat);
        let suf = width_suffix(sizes[i] as nat);
        assert(id.subrange(id.len() - suf.len(), id.len() as int) =~= suf);
        assert(ends_with(id, suf));
    }
}

/// Deriving a name twice from the same source, rules and width gives the same
/// identifier, and feeding that identifier back as a source is stopped by the
/// guard before any work.
pub proof fn lemma_derive_name_is_deterministic(
    source: Seq<char>,
    rules: Seq<(String, String)>,
    sizes: Seq<u32>,
    i: int,
    first: Seq<char>,
    second: Seq<char>,
)
    requires
        0 <= i < sizes.len(),
        first == derived_name(source, rules, sizes[i] as nat),
        second == derived_name(source, rules, sizes[i] as nat),
    ensures
        first == second,
        is_derivative(second, sizes),
{
    lemma_derived_names_are_guarded(source, rules, sizes);
}

/// An identifier that ends with none of the configured width markers is not
/// taken for a derivative.
pub proof fn lemma_unmarked_is_not_derivative(id: Seq<char>, sizes: Seq<u32>)
    requires
        forall|i: int| 0 <= i < sizes.len() ==> !ends_with(id, #[trigger] width_suffix(sizes[i] as nat)),
    ensures
        !is_derivative(id, sizes),
{
}

} // verus!
