//! What the library says to mpv and reads back from it: track labels,
//! clock texts, IPC commands and IPC replies.

use vstd::prelude::*;
use crate::json::{at, check_text, get, get_number, is_text, number_of, Json, JsonNumber};
use crate::text::{decimal, decimal2, join, owned, push_decimal, push_decimal2, push_signed, signed_decimal};

verus! {

// ---------------------------------------------------------------------------
// Tracks
// ---------------------------------------------------------------------------

/// An audio, subtitle or video track of the playing media.
pub struct Track {
    pub id: i64,
    pub kind: String,
    pub lang: Option<String>,
    pub title: Option<String>,
    pub selected: bool,
}

/// The descriptive parts of a track label: a real language code (not
/// empty, not `und`), then a non-empty title.
pub open spec fn label_parts(lang: Option<Seq<char>>, title: Option<Seq<char>>) -> Seq<Seq<char>> {
    let a: Seq<Seq<char>> = match lang {
        Some(l) => if l.len() > 0 && l != "und"@ {
            seq![l]
        } else {
            Seq::empty()
        },
        None => Seq::empty(),
    };
    match title {
        Some(t) => if t.len() > 0 {
            a.push(t)
        } else {
            a
        },
        None => a,
    }
}

pub open spec fn opt_view(s: Option<String>) -> Option<Seq<char>> {
    match s {
        Some(x) => Some(x@),
        None => None,
    }
}

/// `#id`, followed by ` · ` and the parts joined with ` · ` when there are
/// any.
pub open spec fn track_label(t: Track) -> Seq<char> {
    let parts = label_parts(opt_view(t.lang), opt_view(t.title));
    seq!['#'] + signed_decimal(t.id as int) + if parts.len() == 0 {
        Seq::empty()
    } else {
        " · "@ + join(parts, " · "@)
    }
}

impl Track {
    /// The label a track is listed under.
    pub fn label(&self) -> (r: String)
        ensures
            r@ == track_label(*self),
    {
        let mut parts: Vec<&String> = Vec::new();
        match &self.lang {
            Some(l) => {
                if l.unicode_len() > 0 && !crate::text::same_text(l.as_str(), "und") {
                    parts.push(l);
                }
            },
            None => {},
        }
        match &self.title {
            Some(t) => {
                if t.unicode_len() > 0 {
                    parts.push(t);
                }
            },
            None => {},
        }
        let ghost spec_parts = label_parts(opt_view(self.lang), opt_view(self.title));
        assert(parts@.map_values(|p: &String| p@) =~= spec_parts);
        proof {
            reveal_strlit("#");
        }
        let mut s = owned("#");
        push_signed(&mut s, self.id);
        if parts.len() > 0 {
            s.append(" · ");
            assert(spec_parts.take(0) =~= Seq::<Seq<char>>::empty());
            let mut i: usize = 0;
            while i < parts.len()
                invariant
                    i <= parts@.len(),
                    parts@.len() > 0,
                    parts@.map_values(|p: &String| p@) == spec_parts,
                    s@ == seq!['#'] + signed_decimal(self.id as int) + " · "@ + join(
                        spec_parts.take(i as int),
                        " · "@,
                    ),
                decreases parts@.len() - i,
            {
                assert(spec_parts.take(i + 1).drop_last() =~= spec_parts.take(i as int));
                assert(spec_parts.take(i + 1).last() == parts@[i as int]@);
                if i > 0 {
                    s.append(" · ");
                } else {
                    assert(spec_parts.take(1) =~= seq![parts@[0]@]);
                }
                s.append(parts[i].as_str());
                i = i + 1;
            }
            assert(spec_parts.take(parts@.len() as int) =~= spec_parts);
        }
        assert(s@ =~= track_label(*self));
        s
    }
}

// ---------------------------------------------------------------------------
// Clock texts
// ---------------------------------------------------------------------------

/// A play time as the player's clock shows it: `HH:MM:SS` from an hour
/// on, else `MM:SS`, every field with at least two digits.
pub open spec fn player_clock_text(secs: nat) -> Seq<char> {
    if secs >= 3600 {
        decimal2(secs / 3600) + seq![':'] + decimal2((secs % 3600) / 60) + seq![':'] + decimal2(
            secs % 60,
        )
    } else {
        decimal2(secs / 60) + seq![':'] + decimal2(secs % 60)
    }
}

/// The player's clock text of a whole number of seconds.
pub fn fmt_time(secs: u64) -> (r: String)
    ensures
        r@ == player_clock_text(secs as nat),
{
    let mut s = String::new();
    if secs >= 3600 {
        push_decimal2(&mut s, secs / 3600);
        crate::text::push_char(&mut s, ':');
        push_decimal2(&mut s, (secs % 3600) / 60);
        crate::text::push_char(&mut s, ':');
        push_decimal2(&mut s, secs % 60);
    } else {
        push_decimal2(&mut s, secs / 60);
        crate::text::push_char(&mut s, ':');
        push_decimal2(&mut s, secs % 60);
    }
    assert(s@ =~= player_clock_text(secs as nat));
    s
}

/// A time in the page texts (resume notice, episode rows): `H:MM:SS` from
/// an hour on, else `M:SS`, the leading field without padding.
pub open spec fn clock_text(secs: nat) -> Seq<char> {
    if secs >= 3600 {
        decimal(secs / 3600) + seq![':'] + decimal2((secs % 3600) / 60) + seq![':'] + decimal2(
            secs % 60,
        )
    } else {
        decimal(secs / 60) + seq![':'] + decimal2(secs % 60)
    }
}

/// The page text of a whole number of seconds.
pub fn clock(secs: u64) -> (r: String)
    ensures
        r@ == clock_text(secs as nat),
{
    let mut s = String::new();
    if secs >= 3600 {
        push_decimal(&mut s, secs / 3600);
        crate::text::push_char(&mut s, ':');
        push_decimal2(&mut s, (secs % 3600) / 60);
        crate::text::push_char(&mut s, ':');
        push_decimal2(&mut s, secs % 60);
    } else {
        push_decimal(&mut s, secs / 60);
        crate::text::push_char(&mut s, ':');
        push_decimal2(&mut s, secs % 60);
    }
    assert(s@ =~= clock_text(secs as nat));
    s
}

// ---------------------------------------------------------------------------
// IPC
// ---------------------------------------------------------------------------

/// The IPC line that asks for a property.
pub open spec fn get_property_spec(prop: Seq<char>) -> Seq<char> {
    "{\"command\":[\"get_property\",\""@ + prop + "\"]}\n"@
}

pub fn get_property_command(prop: &str) -> (r: String)
    ensures
        r@ == get_property_spec(prop@),
{
    let mut s = owned("{\"command\":[\"get_property\",\"");
    s.append(prop);
    s.append("\"]}\n");
    s
}

/// A reply reports success: its `error` is the text `success`.
pub open spec fn reply_ok(v: Json) -> bool {
    is_text(at(Some(v), "error"@), "success"@)
}

/// The value of a property reply: nothing for a failed request; a flag
/// reads as one or zero; otherwise the number in `data`, if any.
pub open spec fn prop_value(v: Json) -> Option<JsonNumber> {
    if !reply_ok(v) {
        None
    } else {
        match at(Some(v), "data"@) {
            Some(Json::Bool(b)) => Some(JsonNumber::Whole(if b {
                1
            } else {
                0
            })),
            d => number_of(d),
        }
    }
}

/// Reads a property reply.
pub fn prop_reply(v: &Json) -> (r: Option<JsonNumber>)
    ensures
        r == prop_value(*v),
{
    if !check_text(get(Some(v), "error"), "success") {
        return None;
    }
    let d = get(Some(v), "data");
    match d {
        Some(Json::Bool(b)) => Some(JsonNumber::Whole(if *b {
            1
        } else {
            0
        })),
        _ => get_number(d),
    }
}

/// The position and duration replies read together: nothing when the
/// position request failed; a missing number reads as zero, and so does the
/// duration of a failed duration request.
pub open spec fn position_value(pos: Json, dur: Json) -> Option<(Option<JsonNumber>, Option<JsonNumber>)> {
    if !reply_ok(pos) {
        None
    } else {
        Some(
            (
                number_of(at(Some(pos), "data"@)),
                if reply_ok(dur) {
                    number_of(at(Some(dur), "data"@))
                } else {
                    None
                },
            ),
        )
    }
}

/// Reads the replies to the position and duration requests.
pub fn position_reply(pos: &Json, dur: &Json) -> (r: Option<(Option<JsonNumber>, Option<JsonNumber>)>)
    ensures
        r == position_value(*pos, *dur),
{
    if !check_text(get(Some(pos), "error"), "success") {
        return None;
    }
    let p = get_number(get(Some(pos), "data"));
    let d = if check_text(get(Some(dur), "error"), "success") {
        get_number(get(Some(dur), "data"))
    } else {
        None
    };
    Some((p, d))
}

} // verus!
