//! The configuration of one invocation: target widths and rename rules,
//! parsed from two comma-separated settings.

use vstd::prelude::*;
use crate::text::{chars_of, string_of};

verus! {

/// Why a setting could not be parsed.
#[derive(Debug, Clone, Copy, PartialEq, Eq, Structural)]
pub enum ConfigError {
    /// A width is not a decimal number in `1..=u32::MAX`.
    InvalidSize,
    /// A rename pair holds no `:`.
    InvalidReplacement,
}

/// Target widths, in configured order, and rename rules `(match, replacement)`,
/// applied first to last.
pub struct Config {
    pub sizes: Vec<u32>,
    pub replacements: Vec<(String, String)>,
}

/// The pieces of `s` between commas; an empty `s` is one empty piece.
pub open spec fn split_commas(s: Seq<char>) -> Seq<Seq<char>>
    decreases s.len(),
{
    if s.len() == 0 {
        seq![Seq::<char>::empty()]
    } else {
        let rest = split_commas(s.drop_last());
        if s.last() == ',' {
            rest.push(Seq::<char>::empty())
        } else {
            rest.update(rest.len() - 1, rest.last().push(s.last()))
        }
    }
}

pub open spec fn is_digit(c: char) -> bool {
    '0' <= c && c <= '9'
}

pub open spec fn digit_value(c: char) -> nat {
    (c as u32 - '0' as u32) as nat
}

/// The number that the digits `s` denote.
pub open spec fn decimal_value(s: Seq<char>) -> nat
    decreases s.len(),
{
    if s.len() == 0 {
        0
    } else {
        decimal_value(s.drop_last()) * 10 + digit_value(s.last())
    }
}

/// `s` is a width: one or more decimal digits denoting a number in `1..=u32::MAX`.
pub open spec fn is_width(s: Seq<char>) -> bool {
    &&& s.len() > 0
    &&& forall|i: int| 0 <= i < s.len() ==> is_digit(#[trigger] s[i])
    &&& 0 < decimal_value(s) <= u32::MAX
}

/// The index of the first `:` in `s`, or `s.len()` where there is none.
pub open spec fn colon_index(s: Seq<char>) -> int
    decreases s.len(),
{
    if s.len() == 0 {
        0
    } else if s[0] == ':' {
        0
    } else {
        1 + colon_index(s.drop_first())
    }
}

pub open spec fn has_colon(s: Seq<char>) -> bool {
    colon_index(s) < s.len()
}

/// What the sizes setting parses to: `None` where a piece is not a width.
pub open spec fn sizes_of(setting: Option<Seq<char>>) -> Option<Seq<nat>> {
    match setting {
        None => Some(Seq::<nat>::empty()),
        Some(s) => {
            let pieces = split_commas(s);
            if forall|i: int| 0 <= i < pieces.len() ==> is_width(#[trigger] pieces[i]) {
                Some(pieces.map_values(|p: Seq<char>| decimal_value(p)))
            } else {
                None
            }
        },
    }
}

/// The pieces of the rename setting, `None` for a missing setting.
pub open spec fn rule_pieces(setting: Option<Seq<char>>) -> Seq<Seq<char>> {
    match setting {
        None => Seq::<Seq<char>>::empty(),
        Some(s) => split_commas(s),
    }
}

/// Every piece of the rename setting holds a `:`.
pub open spec fn rules_valid(setting: Option<Seq<char>>) -> bool {
    forall|i: int| 0 <= i < rule_pieces(setting).len() ==> has_colon(#[trigger] rule_pieces(setting)[i])
}

/// `rules` are the pieces of the setting, each split at its first `:`.
pub open spec fn rules_parsed(setting: Option<Seq<char>>, rules: Seq<(String, String)>) -> bool {
    let pieces = rule_pieces(setting);
    &&& rules.len() == pieces.len()
    &&& forall|i: int| 0 <= i < pieces.len() ==> {
        let p = #[trigger] pieces[i];
        &&& rules[i].0@ == p.subrange(0, colon_index(p))
        &&& rules[i].1@ == p.subrange(colon_index(p) + 1, p.len() as int)
    }
}

pub open spec fn opt_view(s: Option<&str>) -> Option<Seq<char>> {
    match s {
        None => None,
        Some(t) => Some(t@),
    }
}

proof fn lemma_split_nonempty(s: Seq<char>)
    ensures
        split_commas(s).len() >= 1,
    decreases s.len(),
{
    if s.len() > 0 {
        lemma_split_nonempty(s.drop_last());
    }
}

/// The pieces of `s` between commas, as `str::split(',')` gives them.
pub fn split_on_commas(s: &Vec<char>) -> (r: Vec<Vec<char>>)
    ensures
        r@.len() == split_commas(s@).len(),
        forall|i: int| 0 <= i < r@.len() ==> (#[trigger] r@[i])@ == split_commas(s@)[i],
{
    let mut done: Vec<Vec<char>> = Vec::new();
    let mut cur: Vec<char> = Vec::new();
    let mut i: usize = 0;
    assert(s@.subrange(0, 0) =~= Seq::<char>::empty());
    while i < s.len()
        invariant
            i <= s@.len(),
            done@.len() + 1 == split_commas(s@.subrange(0, i as int)).len(),
            forall|k: int| 0 <= k < done@.len() ==> (#[trigger] done@[k])@ == split_commas(s@.subrange(0, i as int))[k],
            cur@ == split_commas(s@.subrange(0, i as int)).last(),
        decreases s@.len() - i,
    {
        let ghost pre = s@.subrange(0, i as int);
        proof { lemma_split_nonempty(pre); }
        let c = s[i];
        i = i + 1;
        assert(s@.subrange(0, i as int).drop_last() =~= pre);
        if c == ',' {
            let piece = cur;
            done.push(piece);
            cur = Vec::new();
            assert(cur@ =~= Seq::<char>::empty());
        } else {
            cur.push(c);
        }
    }
    proof { lemma_split_nonempty(s@); }
    assert(s@.subrange(0, s@.len() as int) =~= s@);
    done.push(cur);
    done
}

/// The width that `p` denotes, `None` where `p` is not a width.
fn parse_width(p: &Vec<char>) -> (r: Option<u32>)
    ensures
        match r {
            Some(v) => is_width(p@) && v as nat == decimal_value(p@),
            None => !is_width(p@),
        },
{
    if p.len() == 0 {
        return None;
    }
    let mut acc: u64 = 0;
    let mut over = false;
    let mut i: usize = 0;
    assert(p@.subrange(0, 0) =~= Seq::<char>::empty());
    while i < p.len()
        invariant
            i <= p@.len(),
            forall|k: int| 0 <= k < i ==> is_digit(#[trigger] p@[k]),
            !over ==> acc as nat == decimal_value(p@.subrange(0, i as int)) && acc <= u32::MAX,
            over ==> decimal_value(p@.subrange(0, i as int)) > u32::MAX,
        decreases p@.len() - i,
    {
        let c = p[i];
        if !('0' <= c && c <= '9') {
            return None;
        }
        let d = (c as u32 - '0' as u32) as u64;
        i = i + 1;
        assert(p@.subrange(0, i as int).drop_last() =~= p@.subrange(0, i - 1));
        if !over {
            acc = acc * 10 + d;
            if acc > 0xffff_ffff {
                over = true;
            }
        }
    }
    assert(p@.subrange(0, p@.len() as int) =~= p@);
    if over || acc == 0 {
        None
    } else {
        Some(acc as u32)
    }
}

/// The index of the first `:` in `p`, or its length.
fn find_colon(p: &Vec<char>) -> (r: usize)
    ensures
        r as int == colon_index(p@),
{
    let mut i: usize = 0;
    assert(p@.subrange(0, p@.len() as int) =~= p@);
    while i < p.len()
        invariant
            i <= p@.len(),
            colon_index(p@) == i + colon_index(p@.subrange(i as int, p@.len() as int)),
        decreases p@.len() - i,
    {
        let ghost rest = p@.subrange(i as int, p@.len() as int);
        if p[i] == ':' {
            assert(rest[0] == ':');
            return i;
        }
        i = i + 1;
        assert(rest.drop_first() =~= p@.subrange(i as int, p@.len() as int));
    }
    i
}

fn sub_chars(p: &Vec<char>, from: usize, to: usize) -> (r: Vec<char>)
    requires
        from <= to <= p@.len(),
    ensures
        r@ == p@.subrange(from as int, to as int),
{
    let mut out: Vec<char> = Vec::new();
    let mut i: usize = from;
    while i < to
        invariant
            from <= i <= to,
            to <= p@.len(),
            out@ == p@.subrange(from as int, i as int),
        decreases to - i,
    {
        out.push(p[i]);
        i = i + 1;
        assert(out@ =~= p@.subrange(from as int, i as int));
    }
    out
}

pub open spec fn widths_view(v: Seq<u32>) -> Seq<nat> {
    v.map_values(|x: u32| x as nat)
}

impl Config {
    /// The configuration from the two settings: the widths first, then the
    /// rename rules. A missing setting gives an empty list.
    pub fn new(sizes_setting: Option<&str>, replacements_setting: Option<&str>) -> (r: Result<Config, ConfigError>)
        ensures
            match r {
                Ok(c) => sizes_of(opt_view(sizes_setting)) == Some(widths_view(c.sizes@))
                    && rules_valid(opt_view(replacements_setting))
                    && rules_parsed(opt_view(replacements_setting), c.replacements@),
                Err(e) => if sizes_of(opt_view(sizes_setting)) is None {
                    e == ConfigError::InvalidSize
                } else {
                    !rules_valid(opt_view(replacements_setting)) && e == ConfigError::InvalidReplacement
                },
            },
    {
        let sizes = match Config::parse_sizes(sizes_setting) {
            Ok(v) => v,
            Err(e) => return Err(e),
        };
        let replacements = match Config::parse_replacements(replacements_setting) {
            Ok(v) => v,
            Err(e) => return Err(e),
        };
        Ok(Config { sizes, replacements })
    }

    /// The widths of a comma-separated setting, in order; a missing setting
    /// gives none. Each piece must be a decimal number in `1..=u32::MAX`,
    /// without sign, blanks or fraction.
    pub fn parse_sizes(setting: Option<&str>) -> (r: Result<Vec<u32>, ConfigError>)
        ensures
            match r {
                Ok(v) => sizes_of(opt_view(setting)) == Some(widths_view(v@)),
                Err(e) => sizes_of(opt_view(setting)) is None && e == ConfigError::InvalidSize,
            },
    {
        let text = match setting {
            None => {
                let v: Vec<u32> = Vec::new();
                assert(widths_view(v@) =~= Seq::<nat>::empty());
                return Ok(v);
            },
            Some(t) => t,
        };
        let pieces = split_on_commas(&chars_of(text));
        let ghost sp = split_commas(text@);
        let mut sizes: Vec<u32> = Vec::new();
        let mut i: usize = 0;
        while i < pieces.len()
            invariant
                i <= pieces@.len(),
                opt_view(setting) == Some(text@),
                sp == split_commas(text@),
                pieces@.len() == sp.len(),
                forall|k: int| 0 <= k < pieces@.len() ==> (#[trigger] pieces@[k])@ == sp[k],
                sizes@.len() == i,
                forall|k: int| 0 <= k < i ==> is_width(#[trigger] sp[k]) && sizes@[k] as nat == decimal_value(sp[k]),
            decreases pieces@.len() - i,
        {
            match parse_width(&pieces[i]) {
                Some(w) => sizes.push(w),
                None => {
                    assert(opt_view(setting) == Some(text@));
                    assert(!is_width(pieces@[i as int]@));
                    return Err(ConfigError::InvalidSize);
                },
            }
            i = i + 1;
        }
        assert(widths_view(sizes@) =~= sp.map_values(|p: Seq<char>| decimal_value(p)));
        Ok(sizes)
    }

    /// The rename pairs of a comma-separated setting, in order, each split at
    /// its first `:` (the replacement may hold more); a missing setting gives
    /// none, a pair without `:` is refused.
    pub fn parse_replacements(setting: Option<&str>) -> (r: Result<Vec<(String, String)>, ConfigError>)
        ensures
            match r {
                Ok(v) => rules_valid(opt_view(setting)) && rules_parsed(opt_view(setting), v@),
                Err(e) => !rules_valid(opt_view(setting)) && e == ConfigError::InvalidReplacement,
            },
    {
        let text = match setting {
            None => {
                return Ok(Vec::new());
            },
            Some(t) => t,
        };
        let pieces = split_on_commas(&chars_of(text));
        let ghost sp = split_commas(text@);
        assert(rule_pieces(opt_view(setting)) == sp);
        let mut rules: Vec<(String, String)> = Vec::new();
        let mut i: usize = 0;
        while i < pieces.len()
            invariant
                i <= pieces@.len(),
                opt_view(setting) == Some(text@),
                sp == split_commas(text@),
                pieces@.len() == sp.len(),
                forall|k: int| 0 <= k < pieces@.len() ==> (#[trigger] pieces@[k])@ == sp[k],
                rules@.len() == i,
                forall|k: int| 0 <= k < i ==> has_colon(#[trigger] sp[k]),
                forall|k: int| 0 <= k < i ==> {
                    let p = #[trigger] sp[k];
                    &&& rules@[k].0@ == p.subrange(0, colon_index(p))
                    &&& rules@[k].1@ == p.subrange(colon_index(p) + 1, p.len() as int)
                },
            decreases pieces@.len() - i,
        {
            let p = &pieces[i];
            let at = find_colon(p);
            if at >= p.len() {
                assert(opt_view(setting) == Some(text@));
                assert(!has_colon(rule_pieces(opt_view(setting))[i as int]));
                return Err(ConfigError::InvalidReplacement);
            }
            let key = string_of(&sub_chars(p, 0, at));
            let value = string_of(&sub_chars(p, at + 1, p.len()));
            rules.push((key, value));
            i = i + 1;
        }
        Ok(rules)
    }
}

} // verus!
