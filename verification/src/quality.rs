//! Quality preferences: parsing user input, format selectors and resolution matching.

use vstd::prelude::*;
use crate::error::{DlpError, Result};
use crate::text::{
    all_digits, append_chars, append_str, chars_eq_str, chars_of, decimal, digit_char, digits_value, is_digit, decimal_chars, lowercase, parse_u32,
    parse_u32_spec, string_of, to_lowercase, trim, trim_end_in, trim_end_set, trim_ws,
};

verus! {

/// A requested video quality.
#[derive(Debug, Clone, Copy, PartialEq, Eq, Structural)]
pub enum QualityPreference {
    Best,
    SpecificHeight(u32),
}

/// The preference named by a cleaned (lowercase, trimmed, trailing-`p`-free) keyword.
pub open spec fn quality_keyword(c: Seq<char>) -> Option<QualityPreference> {
    if c == "best"@ || c == "max"@ || c == "highest"@ {
        Some(QualityPreference::Best)
    } else if c == "4k"@ || c == "uhd"@ || c == "2160"@ {
        Some(QualityPreference::SpecificHeight(2160))
    } else if c == "2k"@ || c == "qhd"@ || c == "1440"@ {
        Some(QualityPreference::SpecificHeight(1440))
    } else if c == "fhd"@ || c == "1080"@ {
        Some(QualityPreference::SpecificHeight(1080))
    } else if c == "hd"@ || c == "720"@ {
        Some(QualityPreference::SpecificHeight(720))
    } else if c == "sd"@ || c == "480"@ {
        Some(QualityPreference::SpecificHeight(480))
    } else if c == "360"@ {
        Some(QualityPreference::SpecificHeight(360))
    } else if c == "240"@ {
        Some(QualityPreference::SpecificHeight(240))
    } else if c == "144"@ {
        Some(QualityPreference::SpecificHeight(144))
    } else {
        match parse_u32_spec(c) {
            Some(n) => if n > 0 { Some(QualityPreference::SpecificHeight(n)) } else { None },
            None => None,
        }
    }
}

/// The preference that an already lowercased, trimmed input names.
pub open spec fn quality_of_lowered(lowered: Seq<char>) -> Option<QualityPreference> {
    quality_keyword(trim_end_set(lowered, seq!['p']))
}

/// The preference that user input names: trimmed, lowercased, trailing `p`s removed.
pub open spec fn parse_quality(input: Seq<char>) -> Option<QualityPreference> {
    quality_of_lowered(lowercase(trim_ws(input)))
}

/// The height-capped format selector for `h`.
pub open spec fn height_selector(h: u32) -> Seq<char> {
    "bestvideo[height<="@ + decimal(h as nat) + "]+bestaudio/best[height<="@ + decimal(h as nat)
        + "]/best"@
}

/// The highest height that does not exceed `target`, if any.
pub open spec fn best_fit(available: Seq<u32>, target: u32) -> Option<u32>
    decreases available.len(),
{
    if available.len() == 0 {
        None
    } else {
        let rest = best_fit(available.drop_last(), target);
        let x = available.last();
        if x <= target {
            match rest {
                Some(m) => Some(if x > m { x } else { m }),
                None => Some(x),
            }
        } else {
            rest
        }
    }
}

impl QualityPreference {
    /// The yt-dlp format selector of the preference.
    pub open spec fn selector(self) -> Seq<char> {
        match self {
            QualityPreference::Best => "bestvideo+bestaudio/best"@,
            QualityPreference::SpecificHeight(h) => height_selector(h),
        }
    }

    /// The resolution chosen among `available` (listed best first).
    pub open spec fn chosen_resolution(self, available: Seq<u32>) -> Option<u32> {
        if available.len() == 0 {
            None
        } else {
            match self {
                QualityPreference::Best => Some(available[0]),
                QualityPreference::SpecificHeight(t) => match best_fit(available, t) {
                    Some(m) => Some(m),
                    None => Some(available.last()),
                },
            }
        }
    }

    /// The next lower step of the fallback ladder 1440, 1080, 720, 480, best.
    pub open spec fn next_fallback(self) -> Option<QualityPreference> {
        match self {
            QualityPreference::SpecificHeight(h) => if h > 1440 {
                Some(QualityPreference::SpecificHeight(1440))
            } else if h > 1080 {
                Some(QualityPreference::SpecificHeight(1080))
            } else if h > 720 {
                Some(QualityPreference::SpecificHeight(720))
            } else if h > 480 {
                Some(QualityPreference::SpecificHeight(480))
            } else {
                Some(QualityPreference::Best)
            },
            QualityPreference::Best => None,
        }
    }

    /// Parses a lowercased, trimmed quality string; `input` is the text the user gave,
    /// which an error reports.
    pub fn parse_lowered(lowered: &str, input: &str) -> (r: Result<Self>)
        ensures
            match r {
                Ok(q) => quality_of_lowered(lowered@) == Some(q),
                Err(e) => quality_of_lowered(lowered@) is None
                    && (e matches DlpError::InvalidQuality(s) && s@ == input@),
            },
    {
        let low = chars_of(lowered);
        let c = trim_end_in(&low, &['p']);
        proof {
            assert(seq!['p'] =~= [ 'p' ]@);
        }
        if chars_eq_str(&c, "best") || chars_eq_str(&c, "max") || chars_eq_str(&c, "highest") {
            Ok(QualityPreference::Best)
        } else if chars_eq_str(&c, "4k") || chars_eq_str(&c, "uhd") || chars_eq_str(&c, "2160") {
            Ok(QualityPreference::SpecificHeight(2160))
        } else if chars_eq_str(&c, "2k") || chars_eq_str(&c, "qhd") || chars_eq_str(&c, "1440") {
            Ok(QualityPreference::SpecificHeight(1440))
        } else if chars_eq_str(&c, "fhd") || chars_eq_str(&c, "1080") {
            Ok(QualityPreference::SpecificHeight(1080))
        } else if chars_eq_str(&c, "hd") || chars_eq_str(&c, "720") {
            Ok(QualityPreference::SpecificHeight(720))
        } else if chars_eq_str(&c, "sd") || chars_eq_str(&c, "480") {
            Ok(QualityPreference::SpecificHeight(480))
        } else if chars_eq_str(&c, "360") {
            Ok(QualityPreference::SpecificHeight(360))
        } else if chars_eq_str(&c, "240") {
            Ok(QualityPreference::SpecificHeight(240))
        } else if chars_eq_str(&c, "144") {
            Ok(QualityPreference::SpecificHeight(144))
        } else {
            match parse_u32(&c) {
                Some(num) => {
                    if num > 0 {
                        return Ok(QualityPreference::SpecificHeight(num));
                    }
                },
                None => {},
            }
            Err(DlpError::InvalidQuality(input.to_owned()))
        }
    }

    /// Parses a quality tier such as `best`, `4k`, `1080p`, `hd` or a positive height.
    pub fn parse(input: &str) -> (r: Result<Self>)
        ensures
            match r {
                Ok(q) => parse_quality(input@) == Some(q),
                Err(e) => parse_quality(input@) is None
                    && (e matches DlpError::InvalidQuality(s) && s@ == input@),
            },
    {
        let chars = chars_of(input);
        let trimmed = string_of(&trim(&chars));
        let lowered = to_lowercase(trimmed.as_str());
        Self::parse_lowered(lowered.as_str(), input)
    }

    /// The yt-dlp format selector string of the preference.
    pub fn to_format_selector(&self) -> (s: String)
        ensures
            s@ == self.selector(),
    {
        match self {
            QualityPreference::Best => "bestvideo+bestaudio/best".to_owned(),
            QualityPreference::SpecificHeight(h) => {
                let d = decimal_chars(*h as u64);
                let mut out: Vec<char> = Vec::new();
                append_str(&mut out, "bestvideo[height<=");
                append_chars(&mut out, &d);
                append_str(&mut out, "]+bestaudio/best[height<=");
                append_chars(&mut out, &d);
                append_str(&mut out, "]/best");
                string_of(&out)
            },
        }
    }

    /// The best matching height among `available` (listed best first): the first one
    /// for `Best`, otherwise the highest not above the target, or the last one when
    /// every height exceeds it.
    pub fn select_best_resolution(&self, available: &[u32]) -> (r: Option<u32>)
        ensures
            r == self.chosen_resolution(available@),
    {
        if available.len() == 0 {
            return None;
        }
        match self {
            QualityPreference::Best => Some(available[0]),
            QualityPreference::SpecificHeight(target) => {
                let mut best: Option<u32> = None;
                let mut i: usize = 0;
                while i < available.len()
                    invariant
                        i <= available.len(),
                        best == best_fit(available@.take(i as int), *target),
                    decreases available.len() - i,
                {
                    let x = available[i];
                    proof {
                        assert(available@.take(i + 1).drop_last() =~= available@.take(i as int));
                        assert(available@.take(i + 1).last() == x);
                    }
                    if x <= *target {
                        best = match best {
                            Some(m) => Some(if x > m { x } else { m }),
                            None => Some(x),
                        };
                    }
                    i = i + 1;
                }
                assert(available@.take(available.len() as int) =~= available@);
                match best {
                    Some(m) => Some(m),
                    None => Some(available[available.len() - 1]),
                }
            },
        }
    }

    /// The next quality to try when the requested one is unavailable.
    pub fn fallback_step(&self) -> (r: Option<QualityPreference>)
        ensures
            r == self.next_fallback(),
    {
        match self {
            QualityPreference::SpecificHeight(h) if *h > 1440 => Some(QualityPreference::SpecificHeight(1440)),
            QualityPreference::SpecificHeight(h) if *h > 1080 => Some(QualityPreference::SpecificHeight(1080)),
            QualityPreference::SpecificHeight(h) if *h > 720 => Some(QualityPreference::SpecificHeight(720)),
            QualityPreference::SpecificHeight(h) if *h > 480 => Some(QualityPreference::SpecificHeight(480)),
            QualityPreference::SpecificHeight(_) => Some(QualityPreference::Best),
            QualityPreference::Best => None,
        }
    }
}

/// The decimal digits of a number spell that number.
proof fn lemma_decimal_digits(n: nat)
    ensures
        decimal(n).len() > 0,
        all_digits(decimal(n)),
        digits_value(decimal(n)) == n,
    decreases n,
{
    let c = digit_char((n % 10) as int);
    assert(c as int == 48 + n % 10);
    if n < 10 {
        assert(decimal(n) == seq![c]);
        assert(seq![c].drop_last() =~= Seq::<char>::empty());
        assert(seq![c].last() == c);
        assert(digits_value(Seq::<char>::empty()) == 0);
        assert(digits_value(seq![c]) == digits_value(seq![c].drop_last()) * 10 + ((c as int) - 48) as nat);
    } else {
        lemma_decimal_digits(n / 10);
        let d = decimal(n);
        assert(d.drop_last() =~= decimal(n / 10));
        assert(d.last() == c);
        assert(n == (n / 10) * 10 + n % 10) by (nonlinear_arith);
        assert(digits_value(d) == digits_value(decimal(n / 10)) * 10 + ((c as int) - 48) as nat);
        assert forall|i: int| 0 <= i < d.len() implies is_digit(#[trigger] d[i]) by {
            if i < d.len() - 1 {
                assert(d[i] == decimal(n / 10)[i]);
            }
        }
    }
}

/// The value of a digit keyword is the number it spells.
proof fn lemma_digit_keywords()
    ensures
        digits_value("2160"@) == 2160,
        digits_value("1440"@) == 1440,
        digits_value("1080"@) == 1080,
        digits_value("720"@) == 720,
        digits_value("480"@) == 480,
        digits_value("360"@) == 360,
        digits_value("240"@) == 240,
        digits_value("144"@) == 144,
{
    reveal_strlit("2160");
    reveal_strlit("1440");
    reveal_strlit("1080");
    reveal_strlit("720");
    reveal_strlit("480");
    reveal_strlit("360");
    reveal_strlit("240");
    reveal_strlit("144");
    assert("2160"@ =~= seq!['2', '1', '6', '0']);
    assert("1440"@ =~= seq!['1', '4', '4', '0']);
    assert("1080"@ =~= seq!['1', '0', '8', '0']);
    assert("720"@ =~= seq!['7', '2', '0']);
    assert("480"@ =~= seq!['4', '8', '0']);
    assert("360"@ =~= seq!['3', '6', '0']);
    assert("240"@ =~= seq!['2', '4', '0']);
    assert("144"@ =~= seq!['1', '4', '4']);
    reveal_with_fuel(digits_value, 5);
    assert(seq!['2', '1', '6', '0'].drop_last() =~= seq!['2', '1', '6']);
    assert(seq!['2', '1', '6'].drop_last() =~= seq!['2', '1']);
    assert(seq!['2', '1'].drop_last() =~= seq!['2']);
    assert(seq!['1', '4', '4', '0'].drop_last() =~= seq!['1', '4', '4']);
    assert(seq!['1', '4', '4'].drop_last() =~= seq!['1', '4']);
    assert(seq!['1', '4'].drop_last() =~= seq!['1']);
    assert(seq!['1', '0', '8', '0'].drop_last() =~= seq!['1', '0', '8']);
    assert(seq!['1', '0', '8'].drop_last() =~= seq!['1', '0']);
    assert(seq!['1', '0'].drop_last() =~= seq!['1']);
    assert(seq!['7', '2', '0'].drop_last() =~= seq!['7', '2']);
    assert(seq!['7', '2'].drop_last() =~= seq!['7']);
    assert(seq!['4', '8', '0'].drop_last() =~= seq!['4', '8']);
    assert(seq!['4', '8'].drop_last() =~= seq!['4']);
    assert(seq!['3', '6', '0'].drop_last() =~= seq!['3', '6']);
    assert(seq!['3', '6'].drop_last() =~= seq!['3']);
    assert(seq!['2', '4', '0'].drop_last() =~= seq!['2', '4']);
    assert(seq!['2', '4'].drop_last() =~= seq!['2']);
    assert(seq!['1'].drop_last() =~= seq![]);
    assert(seq!['2'].drop_last() =~= seq![]);
    assert(seq!['3'].drop_last() =~= seq![]);
    assert(seq!['4'].drop_last() =~= seq![]);
    assert(seq!['7'].drop_last() =~= seq![]);
}

/// A height written in decimal digits reads back as that height, with or without a
/// trailing `p` (on the lowercased, trimmed input).
pub proof fn height_round_trips(n: u32)
    requires
        n > 0,
    ensures
        quality_of_lowered(decimal(n as nat)) == Some(QualityPreference::SpecificHeight(n)),
        quality_of_lowered(decimal(n as nat) + "p"@) == Some(QualityPreference::SpecificHeight(n)),
{
    let d = decimal(n as nat);
    lemma_decimal_digits(n as nat);
    lemma_digit_keywords();
    reveal_strlit("p");
    assert(is_digit(d.last()));
    assert(!seq!['p'].contains(d.last()));
    assert(trim_end_set(d, seq!['p']) == d);
    let dp = d + "p"@;
    assert(dp.last() == 'p');
    assert(dp.drop_last() =~= d);
    assert(seq!['p'][0] == 'p');
    assert(seq!['p'].contains(dp.last()));
    assert(trim_end_set(dp, seq!['p']) == trim_end_set(d, seq!['p']));
    assert(trim_end_set(dp, seq!['p']) == d);
    reveal_strlit("best");
    reveal_strlit("max");
    reveal_strlit("highest");
    reveal_strlit("4k");
    reveal_strlit("uhd");
    reveal_strlit("2k");
    reveal_strlit("qhd");
    reveal_strlit("fhd");
    reveal_strlit("hd");
    reveal_strlit("sd");
    assert(is_digit(d[0]));
    assert(d != "best"@ && d != "max"@ && d != "highest"@ && d != "uhd"@ && d != "qhd"@ && d != "fhd"@
        && d != "hd"@ && d != "sd"@);
    if d == "4k"@ {
        assert(is_digit(d[1]));
    }
    if d == "2k"@ {
        assert(is_digit(d[1]));
    }
    assert(d[0] != '+');
    assert(parse_u32_spec(d) == Some(n));
}

/// Each step down the fallback ladder asks for less: a lower height, or the best stream
/// once the heights are exhausted; the best stream has no fallback.
pub proof fn fallback_lowers_quality(q: QualityPreference)
    ensures
        match q.next_fallback() {
            Some(QualityPreference::SpecificHeight(h2)) => q matches QualityPreference::SpecificHeight(h) && h2 < h,
            Some(QualityPreference::Best) => q matches QualityPreference::SpecificHeight(h) && h <= 480,
            None => q == QualityPreference::Best,
        },
{
}

/// The best fit of `available` for `target` is the largest height of `available` that is
/// at most `target`, or nothing when every height exceeds it.
proof fn lemma_best_fit(available: Seq<u32>, target: u32)
    ensures
        best_fit(available, target) is None <==> forall|i: int|
            0 <= i < available.len() ==> available[i] > target,
        best_fit(available, target) matches Some(m) ==> {
            &&& available.contains(m)
            &&& m <= target
            &&& forall|i: int| 0 <= i < available.len() && available[i] <= target ==> available[i] <= m
        },
    decreases available.len(),
{
    if available.len() > 0 {
        let init = available.drop_last();
        lemma_best_fit(init, target);
        assert forall|i: int| 0 <= i < init.len() implies init[i] == available[i] by {}
        if let Some(m) = best_fit(init, target) {
            let j = choose|j: int| 0 <= j < init.len() && init[j] == m;
            assert(available[j] == m);
        }
        assert(available[available.len() - 1] == available.last());
    }
}

/// For a requested height and a non-empty list of heights: when some height is at most
/// the request, the chosen one is a listed height, at most the request, and at least
/// every listed height that is at most the request (so a listed request is chosen
/// itself); when every height exceeds the request, the last listed height is chosen.
pub proof fn specific_height_picks_highest_fit(t: u32, available: Seq<u32>)
    requires
        available.len() > 0,
    ensures
        (exists|i: int| 0 <= i < available.len() && available[i] <= t) ==> {
            &&& QualityPreference::SpecificHeight(t).chosen_resolution(available) matches Some(x)
            &&& available.contains(x)
            &&& x <= t
            &&& forall|i: int| 0 <= i < available.len() && available[i] <= t ==> available[i] <= x
        },
        available.contains(t) ==> QualityPreference::SpecificHeight(t).chosen_resolution(available)
            == Some(t),
        (forall|i: int| 0 <= i < available.len() ==> available[i] > t) ==> QualityPreference::SpecificHeight(
            t,
        ).chosen_resolution(available) == Some(available[available.len() - 1]),
{
    lemma_best_fit(available, t);
    if available.contains(t) {
        let j = choose|j: int| 0 <= j < available.len() && available[j] == t;
        assert(available[j] <= t);
    }
}

} // verus!
