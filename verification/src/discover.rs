//! The discover page's filter: the genres and keywords picked, the pills
//! that remove them, and the texts around the results.

use vstd::prelude::*;
use crate::text::{decimal, owned, push_decimal, same_text};

verus! {

/// The texts of a list of strings.
pub open spec fn texts(v: Seq<String>) -> Seq<Seq<char>> {
    v.map_values(|s: String| s@)
}

/// A list without the first copy of `x` (unchanged when it has none).
pub open spec fn without_first(s: Seq<Seq<char>>, x: Seq<char>) -> Seq<Seq<char>> {
    match s.index_of_first(x) {
        Some(i) => s.remove(i),
        None => s,
    }
}

/// The picked slugs after a check box was ticked or unticked: a ticked
/// slug is added once, at the end; an unticked one loses its first copy.
pub open spec fn toggled_spec(sel: Seq<Seq<char>>, slug: Seq<char>, active: bool) -> Seq<Seq<char>> {
    if active {
        if sel.contains(slug) {
            sel
        } else {
            sel.push(slug)
        }
    } else {
        without_first(sel, slug)
    }
}

proof fn lemma_first_at(s: Seq<Seq<char>>, v: Seq<char>, i: int)
    requires
        0 <= i < s.len(),
        s[i] == v,
        forall|j: int| 0 <= j < i ==> s[j] != v,
    ensures
        s.index_of_first(v) == Some(i),
{
    s.index_of_first_ensures(v);
    assert(s.contains(v));
}

/// Where the first copy of `slug` stands, if anywhere.
fn position_of(sel: &Vec<String>, slug: &str) -> (r: Option<usize>)
    ensures
        match r {
            Some(i) => texts(sel@).index_of_first(slug@) == Some(i as int),
            None => texts(sel@).index_of_first(slug@) is None,
        },
{
    let ghost t = texts(sel@);
    let mut i: usize = 0;
    while i < sel.len()
        invariant
            t == texts(sel@),
            i <= sel@.len(),
            forall|j: int| 0 <= j < i ==> t[j] != slug@,
        decreases sel@.len() - i,
    {
        if same_text(sel[i].as_str(), slug) {
            proof {
                lemma_first_at(t, slug@, i as int);
            }
            return Some(i);
        }
        i = i + 1;
    }
    proof {
        t.index_of_first_ensures(slug@);
        if t.contains(slug@) {
            let k = choose|k: int| 0 <= k < t.len() && t[k] == slug@;
            assert(t[k] != slug@);
        }
    }
    None
}

/// Removes the first copy of `slug`.
pub fn remove_first(sel: &mut Vec<String>, slug: &str)
    ensures
        texts(final(sel)@) == without_first(texts(old(sel)@), slug@),
{
    match position_of(sel, slug) {
        Some(i) => {
            let ghost before = sel@;
            proof {
                texts(before).index_of_first_ensures(slug@);
            }
            sel.remove(i);
            assert(texts(sel@) =~= texts(before).remove(i as int));
        },
        None => {},
    }
}

/// A genre's or keyword's check box was ticked or unticked.
pub fn toggle_slug(sel: &mut Vec<String>, slug: &str, active: bool)
    ensures
        texts(final(sel)@) == toggled_spec(texts(old(sel)@), slug@, active),
{
    let found = position_of(sel, slug);
    proof {
        texts(sel@).index_of_first_ensures(slug@);
    }
    if active {
        if found.is_none() {
            let ghost before = sel@;
            sel.push(owned(slug));
            assert(texts(sel@) =~= texts(before).push(slug@));
        }
    } else {
        remove_first(sel, slug);
    }
}

/// A pill was clicked: its slug leaves the genres and the keywords.
pub fn remove_pill(genres: &mut Vec<String>, keywords: &mut Vec<String>, slug: &str)
    ensures
        texts(final(genres)@) == without_first(texts(old(genres)@), slug@),
        texts(final(keywords)@) == without_first(texts(old(keywords)@), slug@),
{
    remove_first(genres, slug);
    remove_first(keywords, slug);
}

/// Unticking a slug that was just ticked gives back the picks as they
/// were.
pub proof fn lemma_untoggle_undoes_toggle(sel: Seq<Seq<char>>, slug: Seq<char>)
    requires
        !sel.contains(slug),
    ensures
        toggled_spec(toggled_spec(sel, slug, true), slug, false) == sel,
{
    let p = sel.push(slug);
    assert forall|j: int| 0 <= j < sel.len() implies p[j] != slug by {
        assert(p[j] == sel[j]);
    }
    lemma_first_at(p, slug, sel.len() as int);
    assert(p.remove(sel.len() as int) =~= sel);
}

/// The filter button's text, counting the picks.
pub open spec fn filter_label_spec(picked: nat) -> Seq<char> {
    if picked > 0 {
        "Filtrele ("@ + decimal(picked) + ")"@
    } else {
        "Filtrele"@
    }
}

pub fn filter_label(genres: usize, keywords: usize) -> (r: String)
    requires
        genres + keywords <= usize::MAX,
    ensures
        r@ == filter_label_spec((genres + keywords) as nat),
{
    let n = genres + keywords;
    if n > 0 {
        let mut s = owned("Filtrele (");
        push_decimal(&mut s, n as u64);
        s.append(")");
        s
    } else {
        owned("Filtrele")
    }
}

/// The number of titles the filter finds, as "120 başlık".
pub fn count_label(total: u64) -> (r: String)
    ensures
        r@ == decimal(total as nat) + " başlık"@,
{
    let mut s = String::new();
    push_decimal(&mut s, total);
    let ghost digits = s@;
    s.append(" başlık");
    proof {
        reveal_strlit("");
    }
    assert(digits =~= decimal(total as nat));
    s
}

/// The text of a picked slug's pill.
pub fn pill_label(label: &str) -> (r: String)
    ensures
        r@ == label@ + " ×"@,
{
    let mut s = owned(label);
    s.append(" ×");
    s
}

/// Whether the "more" button shows under the results: not while loading,
/// and only when some but not all titles are shown.
pub fn more_results(loading: bool, shown: u64, total: u64) -> (r: bool)
    ensures
        r == (!loading && shown > 0 && shown < total),
{
    !loading && shown > 0 && shown < total
}

/// The results page asked for next: the one after the pages fetched.
pub fn next_results_page(fetched: u32) -> (r: u32)
    requires
        fetched < u32::MAX,
    ensures
        r == fetched + 1,
{
    fetched + 1
}

} // verus!
