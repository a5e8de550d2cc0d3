//! The texts of the site's information pages: reviews, news and the
//! airing calendar.

use vstd::prelude::*;
use crate::text::{chars_of, decimal, decimal2, lines, lines_of, owned, push_decimal, push_decimal2, string_of, trim, trim_chars, to_uppercase, uppercase};

verus! {

// ---------------------------------------------------------------------------
// Reviews
// ---------------------------------------------------------------------------

/// The author shown on a user comment: "Anonim" when the account has no
/// name.
pub open spec fn review_author_spec(username: Seq<char>) -> Seq<char> {
    if username.len() == 0 {
        "Anonim"@
    } else {
        username
    }
}

pub fn review_author(username: &str) -> (r: String)
    ensures
        r@ == review_author_spec(username@),
{
    if username.unicode_len() == 0 {
        owned("Anonim")
    } else {
        owned(username)
    }
}

/// The badge shown while the author's picture is missing: the first
/// letter of the name in upper case, or "?" for an empty name.
pub open spec fn review_initial_spec(username: Seq<char>) -> Seq<char> {
    if username.len() == 0 {
        uppercase(seq!['?'])
    } else {
        uppercase(seq![username[0]])
    }
}

pub fn review_initial(username: &str) -> (r: String)
    ensures
        r@ == review_initial_spec(username@),
{
    let cs = chars_of(username);
    let first: Vec<char> = if cs.len() == 0 {
        vec!['?']
    } else {
        vec![cs[0]]
    };
    let s = string_of(first.as_slice());
    assert(first@ =~= if username@.len() == 0 {
        seq!['?']
    } else {
        seq![username@[0]]
    });
    to_uppercase(s.as_str())
}

/// The heading of a title's reviews, with their number when there are any.
pub open spec fn reviews_heading_spec(total: u64) -> Seq<char> {
    if total > 0 {
        "⭐ İNCELEMELER ("@ + decimal(total as nat) + ")"@
    } else {
        "⭐ İNCELEMELER"@
    }
}

pub fn reviews_heading(total: u64) -> (r: String)
    ensures
        r@ == reviews_heading_spec(total),
{
    if total > 0 {
        let mut s = owned("⭐ İNCELEMELER (");
        push_decimal(&mut s, total);
        s.append(")");
        s
    } else {
        owned("⭐ İNCELEMELER")
    }
}

/// The "show more" button of a paged list (reviews, news): shown while
/// pages are left, counting what is shown when the total is known.
pub open spec fn paged_more_spec(page: u32, last_page: u32, shown: u64, total: u64) -> Option<
    Seq<char>,
> {
    if page < last_page {
        Some(
            if total > 0 {
                "Daha Fazla Göster ("@ + decimal(shown as nat) + " / "@ + decimal(total as nat)
                    + ")"@
            } else {
                "Daha Fazla Göster"@
            },
        )
    } else {
        None
    }
}

pub fn paged_more_label(page: u32, last_page: u32, shown: u64, total: u64) -> (r: Option<String>)
    ensures
        match r {
            Some(s) => paged_more_spec(page, last_page, shown, total) == Some(s@),
            None => paged_more_spec(page, last_page, shown, total) is None,
        },
{
    if page >= last_page {
        return None;
    }
    if total > 0 {
        let mut s = owned("Daha Fazla Göster (");
        push_decimal(&mut s, shown);
        s.append(" / ");
        push_decimal(&mut s, total);
        s.append(")");
        Some(s)
    } else {
        Some(owned("Daha Fazla Göster"))
    }
}

// ---------------------------------------------------------------------------
// News
// ---------------------------------------------------------------------------

/// The summary under a news title: its body's first line, trimmed.
pub open spec fn news_summary_spec(body: Seq<char>) -> Seq<char> {
    if lines(body).len() > 0 {
        trim(lines(body)[0])
    } else {
        Seq::empty()
    }
}

pub fn news_summary(body: &str) -> (r: String)
    ensures
        r@ == news_summary_spec(body@),
{
    let cs = chars_of(body);
    let ls = lines_of(cs.as_slice());
    if ls.len() == 0 {
        return String::new();
    }
    assert(ls@.map_values(|l: Vec<char>| l@)[0] == ls@[0]@);
    let t = trim_chars(ls[0].as_slice());
    string_of(t.as_slice())
}

// ---------------------------------------------------------------------------
// Calendar
// ---------------------------------------------------------------------------

/// The text of a day's chip: the day, then how many episodes air.
pub open spec fn calendar_chip_spec(day: Seq<char>, count: u64) -> Seq<char> {
    day + " · "@ + decimal(count as nat)
}

pub fn calendar_chip(day: &str, count: u64) -> (r: String)
    ensures
        r@ == calendar_chip_spec(day@, count),
{
    let mut s = owned(day);
    s.append(" · ");
    push_decimal(&mut s, count);
    s
}

/// The day whose episodes are listed: the selected one, or the last day
/// when the selection is past the end; none without days.
pub fn calendar_day(sel: usize, days: usize) -> (r: Option<usize>)
    ensures
        r == if days == 0 {
            None
        } else if sel < days {
            Some(sel)
        } else {
            Some((days - 1) as usize)
        },
{
    if days == 0 {
        None
    } else if sel < days {
        Some(sel)
    } else {
        Some(days - 1)
    }
}

/// The picture of a calendar entry and its size: the episode's still
/// (96×54) when there is one, else the title's poster (48×72).
pub fn calendar_thumb<'a>(ep_poster: Option<&'a str>, title_poster: Option<&'a str>) -> (r: (
    Option<&'a str>,
    u32,
    u32,
))
    ensures
        r == match ep_poster {
            Some(p) => (Some(p), 96u32, 54u32),
            None => (title_poster, 48u32, 72u32),
        },
{
    match ep_poster {
        Some(p) => (Some(p), 96, 54),
        None => (title_poster, 48, 72),
    }
}

/// The name of a calendar entry: the title's name, or "Anime #id" for a
/// title without one.
pub open spec fn calendar_name_spec(name: Seq<char>, id: u64) -> Seq<char> {
    if name.len() == 0 {
        "Anime #"@ + decimal(id as nat)
    } else {
        name
    }
}

pub fn calendar_name(name: &str, id: u64) -> (r: String)
    ensures
        r@ == calendar_name_spec(name@, id),
{
    if name.unicode_len() == 0 {
        let mut s = owned("Anime #");
        push_decimal(&mut s, id);
        s
    } else {
        owned(name)
    }
}

/// The line under a calendar entry: `S01E02` when both numbers are known,
/// then the episode's name, joined by ` · `.
pub open spec fn calendar_line_spec(season: u64, episode: u64, name: Seq<char>) -> Seq<char> {
    let ep: Seq<char> = if season > 0 && episode > 0 {
        seq!['S'] + decimal2(season as nat) + seq!['E'] + decimal2(episode as nat)
    } else {
        Seq::empty()
    };
    if name.len() > 0 {
        ep + (if ep.len() > 0 {
            " · "@
        } else {
            Seq::empty()
        }) + name
    } else {
        ep
    }
}

pub fn calendar_line(season: u64, episode: u64, name: &str) -> (r: String)
    ensures
        r@ == calendar_line_spec(season, episode, name@),
{
    let mut s = String::new();
    if season > 0 && episode > 0 {
        crate::text::push_char(&mut s, 'S');
        push_decimal2(&mut s, season);
        crate::text::push_char(&mut s, 'E');
        push_decimal2(&mut s, episode);
    }
    if name.unicode_len() > 0 {
        if s.unicode_len() > 0 {
            s.append(" · ");
        }
        s.append(name);
    }
    proof {
        reveal_strlit("");
    }
    assert(s@ =~= calendar_line_spec(season, episode, name@));
    s
}

} // verus!
