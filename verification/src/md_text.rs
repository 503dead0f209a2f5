//! The text pieces of the Markdown rendering: section numbers, view packet
//! titles, Mermaid node names and Markdown anchors.

use vstd::prelude::*;
use crate::text::{signed_decimal_string, i32_to_decimal, decimal_string, u64_to_decimal};

verus! {

/// Every view type and view style, with the number of its section: a view
/// type's number among the types, a style's among its type's styles.
pub open spec fn section_numbers() -> Seq<(Seq<char>, i32)> {
    seq![
        ("Module"@, 1i32),
        ("CnC"@, 2i32),
        ("Allocation"@, 3i32),
        ("Decomposition"@, 1i32),
        ("Uses"@, 2i32),
        ("Generalize"@, 3i32),
        ("Layered"@, 4i32),
        ("ClientServer"@, 1i32),
        ("PeerToPeer"@, 2i32),
        ("PublishSubscribe"@, 3i32),
        ("PipeAndFilter"@, 4i32),
        ("SharedData"@, 5i32),
        ("Deployment"@, 1i32),
        ("Install"@, 2i32),
        ("Assignment"@, 3i32),
        ("Testing"@, 4i32),
    ]
}

/// An entry of `section_numbers` for `name`.
pub open spec fn named(name: Seq<char>) -> spec_fn((Seq<char>, i32)) -> bool {
    |p: (Seq<char>, i32)| p.0 == name
}

/// The section number of a view type or style, if it is one.
pub open spec fn section_number(name: Seq<char>) -> Option<i32> {
    let hits = section_numbers().filter(named(name));
    if hits.len() > 0 {
        Some(hits[0].1)
    } else {
        None
    }
}

/// The view types and, for each, its styles, in document order.
pub open spec fn view_styles() -> Seq<(Seq<char>, Seq<Seq<char>>)> {
    seq![
        ("Module"@, seq!["Decomposition"@, "Uses"@, "Generalize"@, "Layered"@]),
        ("CnC"@, seq!["ClientServer"@, "PeerToPeer"@, "PublishSubscribe"@, "PipeAndFilter"@, "SharedData"@]),
        ("Allocation"@, seq!["Deployment"@, "Install"@, "Assignment"@, "Testing"@]),
    ]
}

/// The section numbers of the view types and styles.
pub fn create_hardcoded_map() -> (map: Vec<(&'static str, i32)>)
    ensures
        map@.map_values(|p: (&'static str, i32)| (p.0@, p.1)) == section_numbers(),
{
    let map = vec![
        ("Module", 1i32),
        ("CnC", 2i32),
        ("Allocation", 3i32),
        ("Decomposition", 1i32),
        ("Uses", 2i32),
        ("Generalize", 3i32),
        ("Layered", 4i32),
        ("ClientServer", 1i32),
        ("PeerToPeer", 2i32),
        ("PublishSubscribe", 3i32),
        ("PipeAndFilter", 4i32),
        ("SharedData", 5i32),
        ("Deployment", 1i32),
        ("Install", 2i32),
        ("Assignment", 3i32),
        ("Testing", 4i32),
    ];
    assert(map@.map_values(|p: (&'static str, i32)| (p.0@, p.1)) =~= section_numbers());
    map
}

/// The styles of each view type.
pub fn create_styles() -> (styles: Vec<(&'static str, Vec<&'static str>)>)
    ensures
        styles@.map_values(
            |p: (&'static str, Vec<&'static str>)| (p.0@, p.1@.map_values(|s: &'static str| s@)),
        ) == view_styles(),
{
    let module = vec!["Decomposition", "Uses", "Generalize", "Layered"];
    let cnc = vec!["ClientServer", "PeerToPeer", "PublishSubscribe", "PipeAndFilter", "SharedData"];
    let allocation = vec!["Deployment", "Install", "Assignment", "Testing"];
    assert(module@.map_values(|s: &'static str| s@) =~= view_styles()[0].1);
    assert(cnc@.map_values(|s: &'static str| s@) =~= view_styles()[1].1);
    assert(allocation@.map_values(|s: &'static str| s@) =~= view_styles()[2].1);
    let styles = vec![("Module", module), ("CnC", cnc), ("Allocation", allocation)];
    assert(styles@.map_values(
        |p: (&'static str, Vec<&'static str>)| (p.0@, p.1@.map_values(|s: &'static str| s@)),
    ) =~= view_styles());
    styles
}

/// The section number of `name`, looked up in `map`.
pub fn lookup_section_number(map: &Vec<(&'static str, i32)>, name: &str) -> (r: Option<i32>)
    requires
        map@.map_values(|p: (&'static str, i32)| (p.0@, p.1)) == section_numbers(),
    ensures
        r == section_number(name@),
{
    let ghost f = |p: (&'static str, i32)| (p.0@, p.1);
    let ghost q = named(name@);
    let mut i: usize = 0;
    assert(section_numbers().take(0).filter(q) =~= Seq::<(Seq<char>, i32)>::empty());
    while i < map.len()
        invariant
            i <= map.len(),
            f == (|p: (&'static str, i32)| (p.0@, p.1)),
            q == named(name@),
            map@.map_values(f) == section_numbers(),
            section_numbers().take(i as int).filter(q).len() == 0,
        decreases map.len() - i,
    {
        assert(section_numbers()[i as int] == f(map@[i as int]));
        assert(section_numbers().take(i + 1) =~= section_numbers().take(i as int).push(section_numbers()[i as int]));
        proof {
            section_numbers().take(i as int).lemma_filter_push(section_numbers()[i as int], q);
        }
        if crate::text::str_equal(map[i].0, name) {
            proof {
                lemma_first_hit(section_numbers(), q, i as int);
            }
            return Some(map[i].1);
        }
        i = i + 1;
    }
    assert(section_numbers().take(map.len() as int) =~= section_numbers());
    None
}

proof fn lemma_first_hit<A>(s: Seq<A>, p: spec_fn(A) -> bool, i: int)
    requires
        0 <= i < s.len(),
        s.take(i).filter(p).len() == 0,
        p(s[i]),
    ensures
        s.filter(p).len() > 0,
        s.filter(p)[0] == s[i],
    decreases s.len() - i,
{
    if i == s.len() - 1 {
        assert(s.take(i) =~= s.drop_last());
        s.drop_last().lemma_filter_push(s.last(), p);
        assert(s.drop_last().push(s.last()) =~= s);
        assert(s.drop_last().filter(p) =~= Seq::<A>::empty());
    } else {
        assert(s.drop_last().take(i) =~= s.take(i));
        assert(s.drop_last()[i] == s[i]);
        lemma_first_hit(s.drop_last(), p, i);
        s.drop_last().lemma_filter_push(s.last(), p);
        assert(s.drop_last().push(s.last()) =~= s);
    }
}

/// The names of `section_numbers`, in order.
pub open spec fn section_names() -> Seq<Seq<char>> {
    section_numbers().map_values(|p: (Seq<char>, i32)| p.0)
}

/// No view type or style is named twice.
proof fn lemma_section_names_distinct()
    ensures
        section_names().no_duplicates(),
{
    reveal_strlit("Module");
    reveal_strlit("CnC");
    reveal_strlit("Allocation");
    reveal_strlit("Decomposition");
    reveal_strlit("Uses");
    reveal_strlit("Generalize");
    reveal_strlit("Layered");
    reveal_strlit("ClientServer");
    reveal_strlit("PeerToPeer");
    reveal_strlit("PublishSubscribe");
    reveal_strlit("PipeAndFilter");
    reveal_strlit("SharedData");
    reveal_strlit("Deployment");
    reveal_strlit("Install");
    reveal_strlit("Assignment");
    reveal_strlit("Testing");
    let n = section_names();
    assert forall|a: int, b: int| 0 <= a < n.len() && 0 <= b < n.len() && a != b implies n[a] != n[b] by {
        if n[a] == n[b] {
            assert(n[a].len() == n[b].len());
            assert(n[a][0] == n[b][0]);
            assert(n[a][1] == n[b][1]);
        }
    }
}

/// A name that stands at `k` in `section_numbers` has the number there.
proof fn lemma_section_number_at(k: int)
    requires
        0 <= k < section_numbers().len(),
    ensures
        section_number(section_numbers()[k].0) == Some(section_numbers()[k].1),
{
    let s = section_numbers();
    let name = s[k].0;
    let q = named(name);
    lemma_section_names_distinct();
    if s.take(k).filter(q).len() > 0 {
        let x = s.take(k).filter(q)[0];
        broadcast use vstd::seq_lib::group_filter_ensures;
        assert(q(x));
        assert(s.take(k).filter(q).contains(x));
        s.take(k).lemma_filter_contains_rev(q, x);
        let j = choose|j: int| 0 <= j < s.take(k).len() && s.take(k)[j] == x;
        assert(s[j] == x);
        assert(section_names()[j] == s[j].0);
        assert(section_names()[k] == s[k].0);
        assert(false);
    }
    lemma_first_hit(s, q, k);
}

/// A view type's section number is its position among the view types,
/// counting from 1, and a style's is its position among its type's styles.
pub proof fn lemma_section_number_is_position(t: int, i: int)
    requires
        0 <= t < view_styles().len(),
        0 <= i < view_styles()[t].1.len(),
    ensures
        section_number(view_styles()[t].0) == Some((t + 1) as i32),
        section_number(view_styles()[t].1[i]) == Some((i + 1) as i32),
{
    let s = section_numbers();
    lemma_section_number_at(t);
    let base: int = if t == 0 { 3 } else if t == 1 { 7 } else { 12 };
    lemma_section_number_at(base + i);
    assert(s[t].0 == view_styles()[t].0);
    assert(s[base + i].0 == view_styles()[t].1[i]);
    assert(s[base + i].1 == (i + 1) as i32);
}

/// The section number `t.s.n` of a view packet of view type `t`, style `s`
/// and sort order `n`.
pub open spec fn section_text(view_type: Seq<char>, view_style: Seq<char>, sort_order: i32) -> Seq<char> {
    signed_decimal_string(section_number(view_type)->0 as int) + seq!['.'] + signed_decimal_string(
        section_number(view_style)->0 as int,
    ) + seq!['.'] + signed_decimal_string(sort_order as int)
}

/// The heading of a view packet: `<type> <style> view packet <section>:
/// <title>`.
pub open spec fn view_packet_title(
    view_type: Seq<char>,
    view_style: Seq<char>,
    view_title: Seq<char>,
    sort_order: i32,
) -> Seq<char> {
    view_type + seq![' '] + view_style + " view packet "@ + section_text(view_type, view_style, sort_order)
        + ": "@ + view_title
}

/// The section number of a view packet as text.
pub fn section_number_text(
    map: &Vec<(&'static str, i32)>,
    view_type: &str,
    view_style: &str,
    sort_order: i32,
) -> (r: String)
    requires
        map@.map_values(|p: (&'static str, i32)| (p.0@, p.1)) == section_numbers(),
        section_number(view_type@) is Some,
        section_number(view_style@) is Some,
    ensures
        r@ == section_text(view_type@, view_style@, sort_order),
{
    let t = lookup_section_number(map, view_type).unwrap();
    let s = lookup_section_number(map, view_style).unwrap();
    let mut out = i32_to_decimal(t);
    out.append(".");
    let st = i32_to_decimal(s);
    out.append(st.as_str());
    out.append(".");
    let so = i32_to_decimal(sort_order);
    out.append(so.as_str());
    proof {
        reveal_strlit(".");
        assert("."@ =~= seq!['.']);
    }
    assert(out@ =~= section_text(view_type@, view_style@, sort_order));
    out
}

/// The heading of a view packet of a known view type and style.
pub fn create_view_packet_title(view_type: &str, view_style: &str, view_title: &str, view_sort_order: i32) -> (r:
    String)
    requires
        section_number(view_type@) is Some,
        section_number(view_style@) is Some,
    ensures
        r@ == view_packet_title(view_type@, view_style@, view_title@, view_sort_order),
{
    let map = create_hardcoded_map();
    let section = section_number_text(&map, view_type, view_style, view_sort_order);
    let mut out = String::from_str(view_type);
    out.append(" ");
    out.append(view_style);
    out.append(" view packet ");
    out.append(section.as_str());
    out.append(": ");
    out.append(view_title);
    proof {
        reveal_strlit(" ");
        assert(" "@ =~= seq![' ']);
    }
    assert(out@ =~= view_packet_title(view_type@, view_style@, view_title@, view_sort_order));
    out
}

/// `text` without its spaces: a Mermaid node name.
pub open spec fn mermaid_link(text: Seq<char>) -> Seq<char> {
    text.filter(|c: char| c != ' ')
}

/// Makes a Mermaid node name of `text` by taking out its spaces.
pub fn make_mermaid_linkable_text(text: String) -> (r: String)
    ensures
        r@ == mermaid_link(text@),
{
    let ghost keep = |c: char| c != ' ';
    let n = text.as_str().unicode_len();
    let mut out = String::new();
    let mut i: usize = 0;
    assert(text@.take(0).filter(keep) =~= Seq::<char>::empty());
    while i < n
        invariant
            n == text@.len(),
            i <= n,
            keep == (|c: char| c != ' '),
            out@ == text@.take(i as int).filter(keep),
        decreases n - i,
    {
        let c = text.as_str().get_char(i);
        assert(text@.take(i + 1) =~= text@.take(i as int).push(c));
        proof {
            text@.take(i as int).lemma_filter_push(c, keep);
        }
        if c != ' ' {
            let piece = text.as_str().substring_char(i, i + 1);
            assert(piece@ =~= seq![c]);
            out.append(piece);
        }
        i = i + 1;
    }
    assert(text@.take(n as int) =~= text@);
    out
}

/// The characters that a Markdown anchor leaves out.
pub open spec fn anchor_drops(c: char) -> bool {
    c == '(' || c == ')' || c == ':' || c == ',' || c == '.' || c == '\'' || c == '"'
}

/// `text` with spaces turned into dashes and the characters of
/// `anchor_drops` taken out.
pub open spec fn anchor_text(text: Seq<char>) -> Seq<char>
    decreases text.len(),
{
    if text.len() == 0 {
        Seq::empty()
    } else {
        let c = text.last();
        anchor_text(text.drop_last()) + if c == ' ' {
            seq!['-']
        } else if anchor_drops(c) {
            Seq::empty()
        } else {
            seq![c]
        }
    }
}

/// What `str::to_lowercase` gives for `s`: each character's Unicode lower
/// case mapping.
pub uninterp spec fn unicode_lowercase(s: Seq<char>) -> Seq<char>;

/// Every character of `s` is ASCII.
pub open spec fn is_ascii_text(s: Seq<char>) -> bool {
    forall|i: int| 0 <= i < s.len() ==> (#[trigger] s[i] as int) < 128
}

/// An ASCII capital letter.
pub open spec fn is_ascii_upper(c: char) -> bool {
    'A' <= c && c <= 'Z'
}

/// The lower case of an ASCII character: capitals become small letters,
/// every other character stays.
pub open spec fn ascii_lower_char(c: char) -> char {
    if is_ascii_upper(c) {
        ((c as int) + 32) as char
    } else {
        c
    }
}

/// `s` with each character in ASCII lower case.
pub open spec fn ascii_lower(s: Seq<char>) -> Seq<char> {
    s.map_values(|c: char| ascii_lower_char(c))
}

/// `s` in lower case (`str::to_lowercase`). The contract names the result;
/// of ASCII text it also states it: Unicode's lower-case mapping sends the
/// capitals `A`..`Z` to `a`..`z` and leaves every other ASCII character as it
/// is, one character for one. Of other text it states nothing more.
#[verifier::external_body]
pub(crate) fn to_lowercase(s: &str) -> (r: String)
    ensures
        r@ == unicode_lowercase(s@),
        is_ascii_text(s@) ==> r@ == ascii_lower(s@),
{
    s.to_lowercase()
}

/// The Markdown anchor of a heading: lower case, spaces as dashes, without
/// `( ) : , . ' "`.
pub open spec fn markdown_link(text: Seq<char>) -> Seq<char> {
    unicode_lowercase(anchor_text(text))
}

/// Makes the Markdown anchor of the heading `text`.
pub fn make_markdown_linkable_text(text: String) -> (r: String)
    ensures
        r@ == markdown_link(text@),
        is_ascii_text(text@) ==> r@ == ascii_lower(anchor_text(text@)),
{
    let n = text.as_str().unicode_len();
    let mut out = String::new();
    let mut i: usize = 0;
    assert(text@.take(0) =~= Seq::<char>::empty());
    proof {
        reveal_strlit("-");
        assert("-"@ =~= seq!['-']);
    }
    while i < n
        invariant
            n == text@.len(),
            i <= n,
            "-"@ == seq!['-'],
            out@ == anchor_text(text@.take(i as int)),
        decreases n - i,
    {
        let c = text.as_str().get_char(i);
        assert(text@.take(i + 1).drop_last() =~= text@.take(i as int));
        assert(text@.take(i + 1).last() == c);
        if c == ' ' {
            out.append("-");
        } else if !(c == '(' || c == ')' || c == ':' || c == ',' || c == '.' || c == '\'' || c == '"') {
            let piece = text.as_str().substring_char(i, i + 1);
            assert(piece@ =~= seq![c]);
            out.append(piece);
        } else {
            assert(out@ =~= out@ + Seq::<char>::empty());
        }
        i = i + 1;
    }
    assert(text@.take(n as int) =~= text@);
    proof {
        if is_ascii_text(text@) {
            lemma_anchor_text_shape(text@);
        }
    }
    to_lowercase(out.as_str())
}

/// Of ASCII text, the anchor is ASCII text too, no longer, and holds no
/// space and none of the characters that anchors leave out.
proof fn lemma_anchor_text_shape(text: Seq<char>)
    requires
        is_ascii_text(text),
    ensures
        is_ascii_text(anchor_text(text)),
        anchor_text(text).len() <= text.len(),
        forall|i: int|
            0 <= i < anchor_text(text).len() ==> #[trigger] anchor_text(text)[i] != ' ' && !anchor_drops(
                anchor_text(text)[i],
            ),
    decreases text.len(),
{
    if text.len() > 0 {
        let c = text.last();
        assert(is_ascii_text(text.drop_last())) by {
            assert forall|i: int| 0 <= i < text.drop_last().len() implies (#[trigger] text.drop_last()[i] as int)
                < 128 by {
                assert(text.drop_last()[i] == text[i]);
            }
        }
        assert((text[text.len() - 1] as int) < 128);
        lemma_anchor_text_shape(text.drop_last());
    }
}

/// Lower case keeps ASCII text ASCII, leaves its length and adds no space
/// and none of the characters that anchors leave out.
proof fn lemma_ascii_lower_shape(s: Seq<char>)
    requires
        is_ascii_text(s),
        forall|i: int| 0 <= i < s.len() ==> #[trigger] s[i] != ' ' && !anchor_drops(s[i]),
    ensures
        is_ascii_text(ascii_lower(s)),
        ascii_lower(s).len() == s.len(),
        forall|i: int| 0 <= i < ascii_lower(s).len() ==> !is_ascii_upper(#[trigger] ascii_lower(s)[i]),
        forall|i: int|
            0 <= i < ascii_lower(s).len() ==> #[trigger] ascii_lower(s)[i] != ' ' && !anchor_drops(
                ascii_lower(s)[i],
            ),
{
    assert forall|i: int| 0 <= i < s.len() implies ascii_lower(s)[i] == ascii_lower_char(s[i]) by {}
}

/// Text with no space and none of the characters that anchors leave out is
/// its own anchor text.
proof fn lemma_anchor_text_fixed(s: Seq<char>)
    requires
        forall|i: int| 0 <= i < s.len() ==> #[trigger] s[i] != ' ' && !anchor_drops(s[i]),
    ensures
        anchor_text(s) == s,
    decreases s.len(),
{
    if s.len() > 0 {
        assert forall|i: int| 0 <= i < s.drop_last().len() implies #[trigger] s.drop_last()[i] != ' '
            && !anchor_drops(s.drop_last()[i]) by {
            assert(s.drop_last()[i] == s[i]);
        }
        lemma_anchor_text_fixed(s.drop_last());
        assert(s[s.len() - 1] != ' ');
        assert(s.drop_last() + seq![s.last()] =~= s);
    }
}

/// Text with no ASCII capital is its own ASCII lower case.
proof fn lemma_ascii_lower_fixed(s: Seq<char>)
    requires
        forall|i: int| 0 <= i < s.len() ==> !is_ascii_upper(#[trigger] s[i]),
    ensures
        ascii_lower(s) == s,
{
    assert(ascii_lower(s) =~= s);
}

/// Of ASCII text, the Markdown anchor is ASCII text no longer than it,
/// without capitals, spaces or any of `( ) : , . ' "`, and making the
/// anchor of an anchor gives it back.
pub proof fn lemma_markdown_anchor(text: Seq<char>)
    requires
        is_ascii_text(text),
    ensures
        is_ascii_text(ascii_lower(anchor_text(text))),
        ascii_lower(anchor_text(text)).len() <= text.len(),
        forall|i: int|
            0 <= i < ascii_lower(anchor_text(text)).len() ==> {
                let c = #[trigger] ascii_lower(anchor_text(text))[i];
                !is_ascii_upper(c) && c != ' ' && !anchor_drops(c)
            },
        ascii_lower(anchor_text(ascii_lower(anchor_text(text)))) == ascii_lower(anchor_text(text)),
{
    let a = anchor_text(text);
    lemma_anchor_text_shape(text);
    lemma_ascii_lower_shape(a);
    let w = ascii_lower(a);
    lemma_anchor_text_fixed(w);
    lemma_ascii_lower_fixed(w);
}

} // verus!
