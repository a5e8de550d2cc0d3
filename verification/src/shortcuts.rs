//! The keyboard shortcut help window: the interface description that lists
//! the keys the application really handles, with the user's own settings
//! written into it.

use vstd::prelude::*;
use crate::text::{chars_of, concat, first_from, first_index, lemma_first_from_bounds, occurs_at, seq_contains, has_prefix, lowercase, owned, push_char, same_text, slice_chars, starts_with, string_of, to_lowercase};

verus! {

// ---------------------------------------------------------------------------
// Specifications
// ---------------------------------------------------------------------------

/// Settings write shortcuts as "Ctrl+S"; the toolkit wants "<ctrl>s", and a
/// bare "/" must be given by its key name.
pub open spec fn accel_spec(sc: Seq<char>) -> Seq<char> {
    if starts_with(sc, "Ctrl+"@) {
        "<ctrl>"@ + lowercase(sc.skip("Ctrl+"@.len() as int))
    } else if sc == "/"@ {
        "slash"@
    } else {
        sc
    }
}

pub open spec fn escape_char(c: char) -> Seq<char> {
    if c == '&' {
        "&amp;"@
    } else if c == '<' {
        "&lt;"@
    } else if c == '>' {
        "&gt;"@
    } else {
        seq![c]
    }
}

/// Markup characters replaced by their entities.
pub open spec fn escape_xml(s: Seq<char>) -> Seq<char>
    decreases s.len(),
{
    if s.len() == 0 {
        seq![]
    } else {
        escape_xml(s.drop_last()) + escape_char(s.last())
    }
}

pub open spec fn item_spec(sc: Seq<char>, title: Seq<char>) -> Seq<char> {
    "<child><object class=\"GtkShortcutsShortcut\">\n            <property name=\"accelerator\">"@
        + escape_xml(sc) + "</property>\n            <property name=\"title\">"@
        + escape_xml(title) + "</property>\n          </object></child>"@
}

pub open spec fn group_spec(title: Seq<char>, items: Seq<Seq<char>>) -> Seq<char> {
    "<child><object class=\"GtkShortcutsGroup\">\n            <property name=\"title\">"@
        + escape_xml(title) + "</property>\n            "@ + concat(items)
        + "\n          </object></child>"@
}

pub open spec fn general_group(search: Seq<char>) -> Seq<char> {
    group_spec(
        "Genel"@,
        seq![
            item_spec(accel_spec(search), "Aramayı aç"@),
            item_spec("Escape"@, "Arama penceresini kapat"@),
        ],
    )
}

pub open spec fn quick_group(quick_search: Seq<char>) -> Seq<char> {
    group_spec(
        "Bölüm Sayfası"@,
        seq![item_spec(accel_spec(quick_search), "Bölüm listesinde ara"@)],
    )
}

pub open spec fn player_group() -> Seq<char> {
    group_spec(
        "Oynatıcı"@,
        seq![
            item_spec("space"@, "Oynat / duraklat"@),
            item_spec("Left"@, "10 saniye geri"@),
            item_spec("Right"@, "10 saniye ileri"@),
            item_spec("Up"@, "Sesi 5 artır"@),
            item_spec("Down"@, "Sesi 5 azalt"@),
            item_spec("m"@, "Sesi aç / kapat"@),
            item_spec("f"@, "Tam ekran"@),
            item_spec("a"@, "Sığdır / doldur"@),
            item_spec("s"@, "İntroyu atla (AniSkip)"@),
            item_spec("e"@, "Outroyu atla (AniSkip)"@),
        ],
    )
}

pub open spec fn groups_spec(search: Seq<char>, quick_search: Seq<char>, quick_enabled: bool) -> Seq<
    Seq<char>,
> {
    if quick_enabled {
        seq![general_group(search), quick_group(quick_search), player_group()]
    } else {
        seq![general_group(search), player_group()]
    }
}

/// The whole interface description of the help window.
pub open spec fn ui_xml_spec(search: Seq<char>, quick_search: Seq<char>, quick_enabled: bool) -> Seq<
    char,
> {
    "<interface>\n          <object class=\"GtkShortcutsWindow\" id=\"shortcuts\">\n            <child><object class=\"GtkShortcutsSection\">\n              <property name=\"section-name\">shortcuts</property>\n              <property name=\"max-height\">12</property>\n              "@
        + concat(groups_spec(search, quick_search, quick_enabled))
        + "\n            </object></child>\n          </object>\n        </interface>"@
}

// ---------------------------------------------------------------------------
// Implementation
// ---------------------------------------------------------------------------

/// Turns the settings' "Ctrl+S" form into accelerator syntax.
pub fn accel(sc: &str) -> (r: String)
    ensures
        r@ == accel_spec(sc@),
{
    let cs = chars_of(sc);
    let pre = chars_of("Ctrl+");
    if has_prefix(cs.as_slice(), pre.as_slice()) {
        let rest = slice_chars(cs.as_slice(), pre.len(), cs.len());
        assert(rest@ =~= sc@.skip("Ctrl+"@.len() as int));
        let rest_s = string_of(rest.as_slice());
        let low = to_lowercase(rest_s.as_str());
        let mut out = owned("<ctrl>");
        out.append(low.as_str());
        out
    } else if same_text(sc, "/") {
        owned("slash")
    } else {
        owned(sc)
    }
}

/// Appends one character in escaped form.
fn push_escaped(out: &mut String, c: char)
    ensures
        final(out)@ == old(out)@ + escape_char(c),
{
    if c == '&' {
        out.append("&amp;");
    } else if c == '<' {
        out.append("&lt;");
    } else if c == '>' {
        out.append("&gt;");
    } else {
        push_char(out, c);
        assert(out@ =~= old(out)@ + seq![c]);
    }
}

/// Setting values come from the user's file and do not enter the markup
/// as they are.
pub fn esc(s: &str) -> (r: String)
    ensures
        r@ == escape_xml(s@),
{
    let cs = chars_of(s);
    let mut out = String::new();
    let mut i: usize = 0;
    while i < cs.len()
        invariant
            cs@ == s@,
            i <= cs@.len(),
            out@ == escape_xml(s@.take(i as int)),
        decreases cs@.len() - i,
    {
        assert(s@.take(i + 1).drop_last() =~= s@.take(i as int));
        push_escaped(&mut out, cs[i]);
        i = i + 1;
    }
    assert(s@.take(cs@.len() as int) =~= s@);
    out
}

/// One entry of the help window.
pub fn item(sc: &str, title: &str) -> (r: String)
    ensures
        r@ == item_spec(sc@, title@),
{
    let mut out = owned(
        "<child><object class=\"GtkShortcutsShortcut\">\n            <property name=\"accelerator\">",
    );
    let e1 = esc(sc);
    out.append(e1.as_str());
    out.append("</property>\n            <property name=\"title\">");
    let e2 = esc(title);
    out.append(e2.as_str());
    out.append("</property>\n          </object></child>");
    out
}

/// The strings written one after another.
pub fn concat_strings(parts: &Vec<String>) -> (r: String)
    ensures
        r@ == concat(parts@.map_values(|p: String| p@)),
{
    let ghost views = parts@.map_values(|p: String| p@);
    let mut out = String::new();
    let mut i: usize = 0;
    while i < parts.len()
        invariant
            views == parts@.map_values(|p: String| p@),
            i <= parts@.len(),
            out@ == concat(views.take(i as int)),
        decreases parts@.len() - i,
    {
        assert(views.take(i + 1).drop_last() =~= views.take(i as int));
        out.append(parts[i].as_str());
        i = i + 1;
    }
    assert(views.take(parts@.len() as int) =~= views);
    out
}

/// A titled group of entries.
pub fn group(title: &str, items: Vec<String>) -> (r: String)
    ensures
        r@ == group_spec(title@, items@.map_values(|p: String| p@)),
{
    let mut out = owned(
        "<child><object class=\"GtkShortcutsGroup\">\n            <property name=\"title\">",
    );
    let e = esc(title);
    out.append(e.as_str());
    out.append("</property>\n            ");
    let body = concat_strings(&items);
    out.append(body.as_str());
    out.append("\n          </object></child>");
    out
}

/// The interface description of the help window.
pub fn ui_xml(search: &str, quick_search: &str, quick_enabled: bool) -> (r: String)
    ensures
        r@ == ui_xml_spec(search@, quick_search@, quick_enabled),
{
    let a = accel(search);
    let mut general_items: Vec<String> = Vec::new();
    general_items.push(item(a.as_str(), "Aramayı aç"));
    general_items.push(item("Escape", "Arama penceresini kapat"));
    assert(general_items@.map_values(|p: String| p@) =~= seq![
        item_spec(accel_spec(search@), "Aramayı aç"@),
        item_spec("Escape"@, "Arama penceresini kapat"@),
    ]);
    let mut groups: Vec<String> = Vec::new();
    groups.push(group("Genel", general_items));
    if quick_enabled {
        let q = accel(quick_search);
        let mut quick_items: Vec<String> = Vec::new();
        quick_items.push(item(q.as_str(), "Bölüm listesinde ara"));
        assert(quick_items@.map_values(|p: String| p@) =~= seq![
            item_spec(accel_spec(quick_search@), "Bölüm listesinde ara"@),
        ]);
        groups.push(group("Bölüm Sayfası", quick_items));
    }
    let mut player_items: Vec<String> = Vec::new();
    player_items.push(item("space", "Oynat / duraklat"));
    player_items.push(item("Left", "10 saniye geri"));
    player_items.push(item("Right", "10 saniye ileri"));
    player_items.push(item("Up", "Sesi 5 artır"));
    player_items.push(item("Down", "Sesi 5 azalt"));
    player_items.push(item("m", "Sesi aç / kapat"));
    player_items.push(item("f", "Tam ekran"));
    player_items.push(item("a", "Sığdır / doldur"));
    player_items.push(item("s", "İntroyu atla (AniSkip)"));
    player_items.push(item("e", "Outroyu atla (AniSkip)"));
    assert(player_items@.map_values(|p: String| p@) =~= seq![
        item_spec("space"@, "Oynat / duraklat"@),
        item_spec("Left"@, "10 saniye geri"@),
        item_spec("Right"@, "10 saniye ileri"@),
        item_spec("Up"@, "Sesi 5 artır"@),
        item_spec("Down"@, "Sesi 5 azalt"@),
        item_spec("m"@, "Sesi aç / kapat"@),
        item_spec("f"@, "Tam ekran"@),
        item_spec("a"@, "Sığdır / doldur"@),
        item_spec("s"@, "İntroyu atla (AniSkip)"@),
        item_spec("e"@, "Outroyu atla (AniSkip)"@),
    ]);
    groups.push(group("Oynatıcı", player_items));
    assert(groups@.map_values(|p: String| p@) =~= groups_spec(
        search@,
        quick_search@,
        quick_enabled,
    ));
    let mut out = owned(
        "<interface>\n          <object class=\"GtkShortcutsWindow\" id=\"shortcuts\">\n            <child><object class=\"GtkShortcutsSection\">\n              <property name=\"section-name\">shortcuts</property>\n              <property name=\"max-height\">12</property>\n              ",
    );
    let body = concat_strings(&groups);
    out.append(body.as_str());
    out.append("\n            </object></child>\n          </object>\n        </interface>");
    out
}

// ---------------------------------------------------------------------------
// Laws
// ---------------------------------------------------------------------------

/// Escaped text never holds a raw tag bracket: whatever the settings file
/// says, it cannot open or close an element of the description.
pub proof fn lemma_escape_has_no_brackets(s: Seq<char>)
    ensures
        forall|i: int|
            0 <= i < escape_xml(s).len() ==> #[trigger] escape_xml(s)[i] != '<'
                && escape_xml(s)[i] != '>',
    decreases s.len(),
{
    reveal_strlit("&amp;");
    reveal_strlit("&lt;");
    reveal_strlit("&gt;");
    if s.len() > 0 {
        lemma_escape_has_no_brackets(s.drop_last());
        let a = escape_xml(s.drop_last());
        let b = escape_char(s.last());
        assert forall|i: int| 0 <= i < (a + b).len() implies (a + b)[i] != '<' && (a + b)[i]
            != '>' by {
            if i < a.len() {
                assert((a + b)[i] == a[i]);
            } else {
                assert((a + b)[i] == b[i - a.len()]);
            }
        }
    }
}

/// Text without markup characters is written unchanged.
pub proof fn lemma_escape_plain(s: Seq<char>)
    requires
        forall|i: int| 0 <= i < s.len() ==> s[i] != '&' && s[i] != '<' && s[i] != '>',
    ensures
        escape_xml(s) == s,
    decreases s.len(),
{
    if s.len() > 0 {
        lemma_escape_plain(s.drop_last());
        assert(s.drop_last().push(s.last()) =~= s);
    }
}

/// With the episode-page group switched off, the episode-page shortcut has
/// no effect on the window, and the window is the one with the group
/// switched on minus that group.
pub proof fn lemma_quick_group_only_when_enabled(search: Seq<char>, q1: Seq<char>, q2: Seq<char>)
    ensures
        ui_xml_spec(search, q1, false) == ui_xml_spec(search, q2, false),
        groups_spec(search, q1, true) == groups_spec(search, q1, false).insert(
            1,
            quick_group(q1),
        ),
{
    assert(groups_spec(search, q1, true) =~= groups_spec(search, q1, false).insert(
        1,
        quick_group(q1),
    ));
}


/// The property that gives an entry its key.
pub open spec fn accelerator_property(accel: Seq<char>) -> Seq<char> {
    "<property name=\"accelerator\">"@ + escape_xml(accel) + "</property>"@
}

proof fn lemma_occurs_contains(s: Seq<char>, p: Seq<char>, i: int, k: int)
    requires
        0 <= i <= k,
        occurs_at(s, p, k),
    ensures
        first_from(s, p, i) is Some,
    decreases k - i,
{
    if i < k && !occurs_at(s, p, i) {
        lemma_occurs_contains(s, p, i + 1, k);
    }
}

/// What a piece holds, the text around it holds too.
proof fn lemma_contains_within(a: Seq<char>, b: Seq<char>, c: Seq<char>, p: Seq<char>)
    requires
        seq_contains(b, p),
    ensures
        seq_contains(a + b + c, p),
{
    lemma_first_from_bounds(b, p, 0);
    let k = first_index(b, p)->0;
    let s = a + b + c;
    assert(s.subrange(a.len() + k, a.len() + k + p.len()) =~= b.subrange(k, k + p.len()));
    lemma_occurs_contains(s, p, 0, a.len() + k);
}

proof fn lemma_contains_self(p: Seq<char>)
    ensures
        seq_contains(p, p),
{
    assert(p.subrange(0, p.len() as int) =~= p);
    lemma_occurs_contains(p, p, 0, 0);
}

/// What one of the pieces holds, the pieces written one after the other
/// hold too.
proof fn lemma_contains_in_concat(parts: Seq<Seq<char>>, i: int, p: Seq<char>)
    requires
        0 <= i < parts.len(),
        seq_contains(parts[i], p),
    ensures
        seq_contains(concat(parts), p),
    decreases parts.len(),
{
    let init = parts.drop_last();
    if i == parts.len() - 1 {
        lemma_contains_within(concat(init), parts.last(), Seq::empty(), p);
        assert(concat(init) + parts.last() + Seq::<char>::empty() =~= concat(parts));
    } else {
        assert(init[i] == parts[i]);
        lemma_contains_in_concat(init, i, p);
        lemma_contains_within(Seq::empty(), concat(init), parts.last(), p);
        assert(Seq::<char>::empty() + concat(init) + parts.last() =~= concat(parts));
    }
}

/// An entry of the window holds the property giving its key.
proof fn lemma_item_has_accelerator(sc: Seq<char>, title: Seq<char>)
    ensures
        seq_contains(item_spec(sc, title), accelerator_property(sc)),
{
    reveal_strlit("<child><object class=\"GtkShortcutsShortcut\">\n            <property name=\"accelerator\">");
    reveal_strlit("<child><object class=\"GtkShortcutsShortcut\">\n            ");
    reveal_strlit("<property name=\"accelerator\">");
    reveal_strlit("</property>\n            <property name=\"title\">");
    reveal_strlit("</property>");
    reveal_strlit("\n            <property name=\"title\">");
    let q = "<child><object class=\"GtkShortcutsShortcut\">\n            "@;
    let rest = "\n            <property name=\"title\">"@ + escape_xml(title)
        + "</property>\n          </object></child>"@;
    assert(item_spec(sc, title) =~= q + accelerator_property(sc) + rest);
    lemma_contains_self(accelerator_property(sc));
    lemma_contains_within(q, accelerator_property(sc), rest, accelerator_property(sc));
}

/// A group holds what its entries hold.
proof fn lemma_group_holds_item(title: Seq<char>, items: Seq<Seq<char>>, i: int, p: Seq<char>)
    requires
        0 <= i < items.len(),
        seq_contains(items[i], p),
    ensures
        seq_contains(group_spec(title, items), p),
{
    lemma_contains_in_concat(items, i, p);
    let a = "<child><object class=\"GtkShortcutsGroup\">\n            <property name=\"title\">"@
        + escape_xml(title) + "</property>\n            "@;
    lemma_contains_within(a, concat(items), "\n          </object></child>"@, p);
    assert(a + concat(items) + "\n          </object></child>"@ =~= group_spec(title, items));
}

/// The window holds what its groups hold.
proof fn lemma_window_holds_group(search: Seq<char>, quick: Seq<char>, enabled: bool, i: int, p: Seq<char>)
    requires
        0 <= i < groups_spec(search, quick, enabled).len(),
        seq_contains(groups_spec(search, quick, enabled)[i], p),
    ensures
        seq_contains(ui_xml_spec(search, quick, enabled), p),
{
    let g = groups_spec(search, quick, enabled);
    lemma_contains_in_concat(g, i, p);
    let a = "<interface>\n          <object class=\"GtkShortcutsWindow\" id=\"shortcuts\">\n            <child><object class=\"GtkShortcutsSection\">\n              <property name=\"section-name\">shortcuts</property>\n              <property name=\"max-height\">12</property>\n              "@;
    let c = "\n            </object></child>\n          </object>\n        </interface>"@;
    lemma_contains_within(a, concat(g), c, p);
}

/// The help window always gives the search shortcut's key; with the
/// episode-page group switched on it also holds that group, titled
/// "Bölüm Sayfası", with the quick-search shortcut's key. (With the group
/// off, the window does not depend on the quick-search shortcut at all:
/// `lemma_quick_group_only_when_enabled`.)
pub proof fn lemma_help_window_lists(search: Seq<char>, quick: Seq<char>, enabled: bool)
    ensures
        seq_contains(ui_xml_spec(search, quick, enabled), accelerator_property(accel_spec(search))),
        enabled ==> seq_contains(
            ui_xml_spec(search, quick, enabled),
            accelerator_property(accel_spec(quick)),
        ),
        enabled ==> seq_contains(ui_xml_spec(search, quick, enabled), "Bölüm Sayfası"@),
{
    let gen_items = seq![
        item_spec(accel_spec(search), "Aramayı aç"@),
        item_spec("Escape"@, "Arama penceresini kapat"@),
    ];
    lemma_item_has_accelerator(accel_spec(search), "Aramayı aç"@);
    assert(gen_items[0] == item_spec(accel_spec(search), "Aramayı aç"@));
    lemma_group_holds_item("Genel"@, gen_items, 0, accelerator_property(accel_spec(search)));
    assert(groups_spec(search, quick, enabled)[0] == general_group(search));
    lemma_window_holds_group(search, quick, enabled, 0, accelerator_property(accel_spec(search)));
    if enabled {
        let q_items = seq![item_spec(accel_spec(quick), "Bölüm listesinde ara"@)];
        lemma_item_has_accelerator(accel_spec(quick), "Bölüm listesinde ara"@);
        assert(q_items[0] == item_spec(accel_spec(quick), "Bölüm listesinde ara"@));
        lemma_group_holds_item("Bölüm Sayfası"@, q_items, 0, accelerator_property(accel_spec(quick)));
        assert(groups_spec(search, quick, enabled)[1] == quick_group(quick));
        lemma_window_holds_group(search, quick, enabled, 1, accelerator_property(accel_spec(quick)));
        let t = "Bölüm Sayfası"@;
        reveal_strlit("Bölüm Sayfası");
        lemma_escape_plain(t);
        let a = "<child><object class=\"GtkShortcutsGroup\">\n            <property name=\"title\">"@;
        let c = "</property>\n            "@ + concat(q_items) + "\n          </object></child>"@;
        lemma_contains_self(t);
        lemma_contains_within(a, t, c, t);
        assert(a + t + c =~= quick_group(quick));
        lemma_window_holds_group(search, quick, enabled, 1, t);
    }
}


/// The character `c` does not occur in `s`.
pub open spec fn lacks(s: Seq<char>, c: char) -> bool {
    forall|i: int| 0 <= i < s.len() ==> s[i] != c
}

proof fn lemma_lacks_join(a: Seq<char>, b: Seq<char>, c: char)
    requires
        lacks(a, c),
        lacks(b, c),
    ensures
        lacks(a + b, c),
{
    assert forall|i: int| 0 <= i < (a + b).len() implies (a + b)[i] != c by {
        if i < a.len() {
            assert((a + b)[i] == a[i]);
        } else {
            assert((a + b)[i] == b[i - a.len()]);
        }
    }
}

proof fn lemma_escape_lacks_o(s: Seq<char>)
    requires
        lacks(s, 'ö'),
    ensures
        lacks(escape_xml(s), 'ö'),
    decreases s.len(),
{
    if s.len() > 0 {
        lemma_escape_lacks_o(s.drop_last());
        reveal_strlit("&amp;");
        reveal_strlit("&lt;");
        reveal_strlit("&gt;");
        assert(s[s.len() - 1] == s.last());
        lemma_lacks_join(escape_xml(s.drop_last()), escape_char(s.last()), 'ö');
    }
}

proof fn lemma_concat_lacks_o(parts: Seq<Seq<char>>)
    requires
        forall|i: int| 0 <= i < parts.len() ==> lacks(#[trigger] parts[i], 'ö'),
    ensures
        lacks(concat(parts), 'ö'),
    decreases parts.len(),
{
    if parts.len() > 0 {
        let init = parts.drop_last();
        assert forall|i: int| 0 <= i < init.len() implies lacks(#[trigger] init[i], 'ö') by {
            assert(init[i] == parts[i]);
        }
        lemma_concat_lacks_o(init);
        assert(lacks(parts[parts.len() - 1], 'ö'));
        lemma_lacks_join(concat(init), parts.last(), 'ö');
    }
}


proof fn lemma_item_lacks_o(sc: Seq<char>, title: Seq<char>)
    requires
        lacks(sc, 'ö'),
        lacks(title, 'ö'),
    ensures
        lacks(item_spec(sc, title), 'ö'),
{
    let a = "<child><object class=\"GtkShortcutsShortcut\">\n            <property name=\"accelerator\">"@;
    let b = "</property>\n            <property name=\"title\">"@;
    let c = "</property>\n          </object></child>"@;
    reveal_strlit("<child><object class=\"GtkShortcutsShortcut\">\n            <property name=\"accelerator\">");
    reveal_strlit("</property>\n            <property name=\"title\">");
    reveal_strlit("</property>\n          </object></child>");
    assert(lacks(a, 'ö'));
    assert(lacks(b, 'ö'));
    assert(lacks(c, 'ö'));
    lemma_escape_lacks_o(sc);
    lemma_escape_lacks_o(title);
    lemma_lacks_join(a, escape_xml(sc), 'ö');
    lemma_lacks_join(a + escape_xml(sc), b, 'ö');
    lemma_lacks_join(a + escape_xml(sc) + b, escape_xml(title), 'ö');
    lemma_lacks_join(a + escape_xml(sc) + b + escape_xml(title), c, 'ö');
}

proof fn lemma_group_lacks_o(title: Seq<char>, items: Seq<Seq<char>>)
    requires
        lacks(title, 'ö'),
        forall|i: int| 0 <= i < items.len() ==> lacks(#[trigger] items[i], 'ö'),
    ensures
        lacks(group_spec(title, items), 'ö'),
{
    let a = "<child><object class=\"GtkShortcutsGroup\">\n            <property name=\"title\">"@;
    let b = "</property>\n            "@;
    let c = "\n          </object></child>"@;
    reveal_strlit("<child><object class=\"GtkShortcutsGroup\">\n            <property name=\"title\">");
    reveal_strlit("</property>\n            ");
    reveal_strlit("\n          </object></child>");
    assert(lacks(a, 'ö'));
    assert(lacks(b, 'ö'));
    assert(lacks(c, 'ö'));
    lemma_escape_lacks_o(title);
    lemma_concat_lacks_o(items);
    lemma_lacks_join(a, escape_xml(title), 'ö');
    lemma_lacks_join(a + escape_xml(title), b, 'ö');
    lemma_lacks_join(a + escape_xml(title) + b, concat(items), 'ö');
    lemma_lacks_join(a + escape_xml(title) + b + concat(items), c, 'ö');
}

proof fn lemma_player_group_lacks_o()
    ensures
        lacks(player_group(), 'ö'),
{
    reveal_strlit("Oynatıcı");
    reveal_strlit("space");
    reveal_strlit("Oynat / duraklat");
    reveal_strlit("Left");
    reveal_strlit("10 saniye geri");
    reveal_strlit("Right");
    reveal_strlit("10 saniye ileri");
    reveal_strlit("Up");
    reveal_strlit("Sesi 5 artır");
    reveal_strlit("Down");
    reveal_strlit("Sesi 5 azalt");
    reveal_strlit("m");
    reveal_strlit("Sesi aç / kapat");
    reveal_strlit("f");
    reveal_strlit("Tam ekran");
    reveal_strlit("a");
    reveal_strlit("Sığdır / doldur");
    reveal_strlit("s");
    reveal_strlit("İntroyu atla (AniSkip)");
    reveal_strlit("e");
    reveal_strlit("Outroyu atla (AniSkip)");
    let items = seq![
        item_spec("space"@, "Oynat / duraklat"@),
        item_spec("Left"@, "10 saniye geri"@),
        item_spec("Right"@, "10 saniye ileri"@),
        item_spec("Up"@, "Sesi 5 artır"@),
        item_spec("Down"@, "Sesi 5 azalt"@),
        item_spec("m"@, "Sesi aç / kapat"@),
        item_spec("f"@, "Tam ekran"@),
        item_spec("a"@, "Sığdır / doldur"@),
        item_spec("s"@, "İntroyu atla (AniSkip)"@),
        item_spec("e"@, "Outroyu atla (AniSkip)"@),
    ];
    lemma_item_lacks_o("space"@, "Oynat / duraklat"@);
    lemma_item_lacks_o("Left"@, "10 saniye geri"@);
    lemma_item_lacks_o("Right"@, "10 saniye ileri"@);
    lemma_item_lacks_o("Up"@, "Sesi 5 artır"@);
    lemma_item_lacks_o("Down"@, "Sesi 5 azalt"@);
    lemma_item_lacks_o("m"@, "Sesi aç / kapat"@);
    lemma_item_lacks_o("f"@, "Tam ekran"@);
    lemma_item_lacks_o("a"@, "Sığdır / doldur"@);
    lemma_item_lacks_o("s"@, "İntroyu atla (AniSkip)"@);
    lemma_item_lacks_o("e"@, "Outroyu atla (AniSkip)"@);
    assert forall|i: int| 0 <= i < items.len() implies lacks(#[trigger] items[i], 'ö') by {
        if i == 0 {
        } else if i == 1 {
        } else if i == 2 {
        } else if i == 3 {
        } else if i == 4 {
        } else if i == 5 {
        } else if i == 6 {
        } else if i == 7 {
        } else if i == 8 {
        } else {
        }
    }
    lemma_group_lacks_o("Oynatıcı"@, items);
}


spec fn off_prefix() -> Seq<char> {
    "<interface>\n          <object class=\"GtkShortcutsWindow\" id=\"shortcuts\">\n            <child><object class=\"GtkShortcutsSection\">\n              <property name=\"section-name\">shortcuts</property>\n              <property name=\"max-height\">12</property>\n              "@
        + "<child><object class=\"GtkShortcutsGroup\">\n            <property name=\"title\">"@
        + escape_xml("Genel"@) + "</property>\n            "@
        + "<child><object class=\"GtkShortcutsShortcut\">\n            <property name=\"accelerator\">"@
}

spec fn off_suffix() -> Seq<char> {
    "</property>\n            <property name=\"title\">"@ + escape_xml("Aramayı aç"@)
        + "</property>\n          </object></child>"@ + item_spec(
        "Escape"@,
        "Arama penceresini kapat"@,
    ) + "\n          </object></child>"@ + player_group()
        + "\n            </object></child>\n          </object>\n        </interface>"@
}

#[verifier::rlimit(50)]
proof fn lemma_off_window_split(search: Seq<char>, quick: Seq<char>)
    ensures
        ui_xml_spec(search, quick, false) == off_prefix() + escape_xml(accel_spec(search))
            + off_suffix(),
{
    let w1 = "<interface>\n          <object class=\"GtkShortcutsWindow\" id=\"shortcuts\">\n            <child><object class=\"GtkShortcutsSection\">\n              <property name=\"section-name\">shortcuts</property>\n              <property name=\"max-height\">12</property>\n              "@;
    let w2 = "\n            </object></child>\n          </object>\n        </interface>"@;
    let ga = "<child><object class=\"GtkShortcutsGroup\">\n            <property name=\"title\">"@;
    let gb = "</property>\n            "@;
    let gc = "\n          </object></child>"@;
    let ia = "<child><object class=\"GtkShortcutsShortcut\">\n            <property name=\"accelerator\">"@;
    let ib = "</property>\n            <property name=\"title\">"@;
    let ic = "</property>\n          </object></child>"@;
    let eg = escape_xml("Genel"@);
    let ea = escape_xml("Aramayı aç"@);
    let m = escape_xml(accel_spec(search));
    let first = item_spec(accel_spec(search), "Aramayı aç"@);
    let second = item_spec("Escape"@, "Arama penceresini kapat"@);
    let pl = player_group();
    assert(first == ia + m + ib + ea + ic);
    assert(first =~= (ia + m) + (ib + ea + ic));
    let items = seq![first, second];
    assert(items.drop_last() =~= seq![first]);
    assert(seq![first].drop_last() =~= Seq::<Seq<char>>::empty());
    assert(concat(seq![first]) == concat(Seq::<Seq<char>>::empty()) + first);
    assert(concat(seq![first]) =~= first);
    assert(concat(items) == concat(seq![first]) + second);
    let ci = concat(items);
    assert(ci == first + second);
    let gen = general_group(search);
    assert(gen == ga + eg + gb + ci + gc);
    assert(gen =~= (ga + eg + gb + ia) + m + (ib + ea + ic + second + gc));
    let groups = groups_spec(search, quick, false);
    assert(groups =~= seq![gen, pl]);
    assert(groups.drop_last() =~= seq![gen]);
    assert(seq![gen].drop_last() =~= Seq::<Seq<char>>::empty());
    assert(concat(seq![gen]) == concat(Seq::<Seq<char>>::empty()) + gen);
    assert(concat(seq![gen]) =~= gen);
    assert(concat(groups) == concat(seq![gen]) + pl);
    let cg = concat(groups);
    assert(cg == gen + pl);
    let w = ui_xml_spec(search, quick, false);
    assert(w == w1 + cg + w2);
    let pre = ga + eg + gb + ia;
    let post = ib + ea + ic + second + gc;
    assert(w =~= (w1 + pre) + m + (post + pl + w2));
    assert(off_prefix() =~= w1 + pre);
    assert(off_suffix() =~= post + pl + w2);
}

proof fn lemma_off_prefix_facts()
    ensures
        lacks(off_prefix(), 'ö'),
        off_prefix().len() > 0,
        off_prefix().last() == '>',
{
    let w1 = "<interface>\n          <object class=\"GtkShortcutsWindow\" id=\"shortcuts\">\n            <child><object class=\"GtkShortcutsSection\">\n              <property name=\"section-name\">shortcuts</property>\n              <property name=\"max-height\">12</property>\n              "@;
    let ga = "<child><object class=\"GtkShortcutsGroup\">\n            <property name=\"title\">"@;
    let gb = "</property>\n            "@;
    let ia = "<child><object class=\"GtkShortcutsShortcut\">\n            <property name=\"accelerator\">"@;
    reveal_strlit("<interface>\n          <object class=\"GtkShortcutsWindow\" id=\"shortcuts\">\n            <child><object class=\"GtkShortcutsSection\">\n              <property name=\"section-name\">shortcuts</property>\n              <property name=\"max-height\">12</property>\n              ");
    reveal_strlit("<child><object class=\"GtkShortcutsGroup\">\n            <property name=\"title\">");
    reveal_strlit("</property>\n            ");
    reveal_strlit("<child><object class=\"GtkShortcutsShortcut\">\n            <property name=\"accelerator\">");
    reveal_strlit("Genel");
    assert(lacks(w1, 'ö'));
    assert(lacks(ga, 'ö'));
    assert(lacks(gb, 'ö'));
    assert(lacks(ia, 'ö'));
    assert(lacks("Genel"@, 'ö'));
    lemma_escape_lacks_o("Genel"@);
    let g = escape_xml("Genel"@);
    lemma_lacks_join(w1, ga, 'ö');
    lemma_lacks_join(w1 + ga, g, 'ö');
    lemma_lacks_join(w1 + ga + g, gb, 'ö');
    lemma_lacks_join(w1 + ga + g + gb, ia, 'ö');
    let x = w1 + ga + g + gb + ia;
    assert(x[x.len() - 1] == ia[ia.len() - 1]);
}

proof fn lemma_off_suffix_facts()
    ensures
        lacks(off_suffix(), 'ö'),
        off_suffix().len() > 0,
        off_suffix()[0] == '<',
{
    let ib = "</property>\n            <property name=\"title\">"@;
    let ic = "</property>\n          </object></child>"@;
    let gc = "\n          </object></child>"@;
    let w2 = "\n            </object></child>\n          </object>\n        </interface>"@;
    reveal_strlit("</property>\n            <property name=\"title\">");
    reveal_strlit("</property>\n          </object></child>");
    reveal_strlit("\n          </object></child>");
    reveal_strlit("\n            </object></child>\n          </object>\n        </interface>");
    reveal_strlit("Aramayı aç");
    reveal_strlit("Escape");
    reveal_strlit("Arama penceresini kapat");
    assert(lacks(ib, 'ö'));
    assert(lacks(ic, 'ö'));
    assert(lacks(gc, 'ö'));
    assert(lacks(w2, 'ö'));
    assert(lacks("Aramayı aç"@, 'ö'));
    assert(lacks("Escape"@, 'ö'));
    assert(lacks("Arama penceresini kapat"@, 'ö'));
    lemma_escape_lacks_o("Aramayı aç"@);
    lemma_item_lacks_o("Escape"@, "Arama penceresini kapat"@);
    lemma_player_group_lacks_o();
    let a = escape_xml("Aramayı aç"@);
    let second = item_spec("Escape"@, "Arama penceresini kapat"@);
    lemma_lacks_join(ib, a, 'ö');
    lemma_lacks_join(ib + a, ic, 'ö');
    lemma_lacks_join(ib + a + ic, second, 'ö');
    lemma_lacks_join(ib + a + ic + second, gc, 'ö');
    lemma_lacks_join(ib + a + ic + second + gc, player_group(), 'ö');
    lemma_lacks_join(ib + a + ic + second + gc + player_group(), w2, 'ö');
    let y = ib + a + ic + second + gc + player_group() + w2;
    assert(y[0] == ib[0]);
}

/// A word with an 'ö' and no tag brackets, found in a text framed by `>`
/// and `<` whose frame holds no 'ö', is found in the framed part.
proof fn lemma_framed_occurrence(x: Seq<char>, m: Seq<char>, y: Seq<char>, p: Seq<char>, o: int)
    requires
        lacks(x, 'ö'),
        lacks(y, 'ö'),
        x.len() > 0,
        x.last() == '>',
        y.len() > 0,
        y[0] == '<',
        0 <= o < p.len(),
        p[o] == 'ö',
        lacks(p, '<'),
        lacks(p, '>'),
        seq_contains(x + m + y, p),
    ensures
        seq_contains(m, p),
{
    let w = x + m + y;
    lemma_first_from_bounds(w, p, 0);
    let k = first_index(w, p)->0;
    assert(occurs_at(w, p, k));
    assert forall|j: int| 0 <= j < p.len() implies w[k + j] == p[j] by {
        assert(w.subrange(k, k + p.len())[j] == w[k + j]);
    }
    let xl = x.len() as int;
    let ml = m.len() as int;
    let n = p.len() as int;
    if k + n <= xl {
        assert(w[k + o] == x[k + o]);
        assert(false);
    } else if k < xl {
        assert(w[xl - 1] == x[xl - 1]);
        assert(w[k + (xl - 1 - k)] == p[xl - 1 - k]);
        assert(false);
    } else if k >= xl + ml {
        assert(w[k + o] == y[k + o - xl - ml]);
        assert(false);
    } else if k + n > xl + ml {
        assert(w[xl + ml] == y[0]);
        assert(w[k + (xl + ml - k)] == p[xl + ml - k]);
        assert(false);
    } else {
        let q = k - xl;
        assert(m.subrange(q, q + n) =~= w.subrange(k, k + n));
        assert(occurs_at(m, p, q));
        lemma_occurs_contains(m, p, 0, q);
    }
}

/// With the episode-page group switched off, the window holds the group's
/// title "Bölüm Sayfası" only where the search shortcut's key text holds
/// it: nothing else in the window spells it.
pub proof fn lemma_no_quick_title_when_off(search: Seq<char>, quick: Seq<char>)
    ensures
        seq_contains(ui_xml_spec(search, quick, false), "Bölüm Sayfası"@) ==> seq_contains(
            escape_xml(accel_spec(search)),
            "Bölüm Sayfası"@,
        ),
{
    let p = "Bölüm Sayfası"@;
    reveal_strlit("Bölüm Sayfası");
    lemma_off_window_split(search, quick);
    lemma_off_prefix_facts();
    lemma_off_suffix_facts();
    assert(lacks(p, '<'));
    assert(lacks(p, '>'));
    assert(p[1] == 'ö');
    if seq_contains(ui_xml_spec(search, quick, false), p) {
        lemma_framed_occurrence(off_prefix(), escape_xml(accel_spec(search)), off_suffix(), p, 1);
    }
}

} // verus!
