//! What the host prints about links.
use crate::fabric::naming::{is_name, valid_name};
use crate::text::{
    after_first, after_first_of, char_is_digit, chars_of, contains, head, head_len, head_of,
    is_digit, lemma_head_len, lines, lines_of, lower, occurs_at, rows, spells, starts_with,
    text_contains, text_of, text_starts_with, to_lower, trim, trim_of, trim_start, trim_start_of,
    words, words_of,
};
use vstd::prelude::*;
use vstd::string::StringExecFns;

verus! {

// ---------------------------------------------------------------------------
// Tokens
// ---------------------------------------------------------------------------

/// Whether a word is followed by another, whatever the case of the other's letters.
pub open spec fn has_token(output: Seq<char>, key: Seq<char>, expected: Seq<char>) -> bool {
    let w = words(output);
    exists|i: int, j: int|
        0 <= i && j == i + 1 && j < w.len() && #[trigger] w[i] == key && lower(#[trigger] w[j])
            == lower(expected)
}

fn lower_spells(s: &Vec<char>, t: &str) -> (r: bool)
    ensures
        r == (lower(s@) == lower(t@)),
{
    let mut copy: Vec<char> = Vec::new();
    for i in 0..s.len()
        invariant
            copy@ == s@.take(i as int),
    {
        copy.push(s[i]);
        assert(copy@ =~= s@.take(i + 1));
    }
    assert(copy@ =~= s@);
    let a = to_lower(text_of(copy).as_str());
    let b = to_lower(t);
    crate::text::same(a.as_str(), b.as_str())
}

fn rows_have_token(w: &Vec<Vec<char>>, key: &str, expected: &str) -> (r: bool)
    ensures
        r == exists|i: int, j: int|
            0 <= i && j == i + 1 && j < rows(w@).len() && #[trigger] rows(w@)[i] == key@ && lower(
                #[trigger] rows(w@)[j],
            ) == lower(expected@),
{
    let ghost ws = rows(w@);
    assert(ws.len() == w@.len());
    if w.len() == 0 {
        return false;
    }
    let mut i: usize = 0;
    while i + 1 < w.len()
        invariant
            ws == rows(w@),
            ws.len() == w@.len(),
            i < w.len(),
            forall|k: int, j: int|
                0 <= k < i && j == k + 1 && j < ws.len() ==> !(#[trigger] ws[k] == key@ && lower(
                    #[trigger] ws[j],
                ) == lower(expected@)),
        decreases w.len() - i,
    {
        assert(ws[i as int] == w@[i as int]@ && ws[i + 1] == w@[i + 1]@);
        if spells(&w[i], key) && lower_spells(&w[i + 1], expected) {
            return true;
        }
        i = i + 1;
    }
    false
}

/// Decides [`has_token`].
pub fn has_link_token(output: &str, key: &str, expected: &str) -> (r: bool)
    ensures
        r == has_token(output@, key@, expected@),
{
    let w = words_of(&chars_of(output));
    rows_have_token(&w, key, expected)
}

/// A longer or shorter value is no match: tokens are compared as a whole.
pub proof fn lemma_tokens_do_not_match_by_prefix(
    output: Seq<char>,
    key: Seq<char>,
    expected: Seq<char>,
)
    requires
        has_token(output, key, expected),
    ensures
        exists|j: int|
            0 < j < words(output).len() && words(output)[j - 1] == key && lower(
                #[trigger] words(output)[j],
            ) == lower(expected) && words(output)[j].len() == expected.len(),
{
    let w = words(output);
    let (i, j) = choose|i: int, j: int|
        0 <= i && j == i + 1 && j < w.len() && #[trigger] w[i] == key && lower(#[trigger] w[j])
            == lower(expected);
    assert(lower(w[j]).len() == w[j].len());
    assert(lower(expected).len() == expected.len());
    assert(words(output)[j - 1] == key);
}

// ---------------------------------------------------------------------------
// Kinds of links
// ---------------------------------------------------------------------------

/// Whether three words in a row say that a link is a tap device.
pub open spec fn has_tap_words(w: Seq<Seq<char>>) -> bool {
    exists|i: int, j: int, k: int|
        0 <= i && j == i + 1 && k == i + 2 && k < w.len() && #[trigger] w[i] == "tun"@
            && #[trigger] w[j] == "type"@ && #[trigger] w[k] == "tap"@
}

/// Whether the description of a link says that it is a tap device.
pub open spec fn is_tap(output: Seq<char>) -> bool {
    contains(output, "tun type tap"@) || exists|i: int|
        0 <= i < lines(output).len() && has_tap_words(words(#[trigger] lines(output)[i]))
}

fn rows_have_tap_words(w: &Vec<Vec<char>>) -> (r: bool)
    ensures
        r == has_tap_words(rows(w@)),
{
    let ghost ws = rows(w@);
    assert(ws.len() == w@.len());
    if w.len() < 3 {
        return false;
    }
    let last: usize = w.len() - 3;
    let mut i: usize = 0;
    while i <= last
        invariant
            ws == rows(w@),
            ws.len() == w@.len(),
            last + 3 == w.len(),
            i <= last + 1,
            forall|a: int, b: int, c: int|
                0 <= a < i && b == a + 1 && c == a + 2 && c < ws.len() ==> !(#[trigger] ws[a]
                    == "tun"@ && #[trigger] ws[b] == "type"@ && #[trigger] ws[c] == "tap"@),
        decreases last + 1 - i,
    {
        assert(ws[i as int] == w@[i as int]@);
        assert(ws[i + 1] == w@[i + 1]@);
        assert(ws[i + 2] == w@[i + 2]@);
        if spells(&w[i], "tun") && spells(&w[i + 1], "type") && spells(&w[i + 2], "tap") {
            return true;
        }
        i = i + 1;
    }
    false
}

/// Decides [`is_tap`].
pub fn interface_output_is_tap(output: &str) -> (r: bool)
    ensures
        r == is_tap(output@),
{
    if text_contains(output, "tun type tap") {
        return true;
    }
    let ls = lines_of(&chars_of(output));
    let ghost all = lines(output@);
    assert(rows(ls@).len() == ls@.len());
    for i in 0..ls.len()
        invariant
            rows(ls@) == all,
            all == lines(output@),
            all.len() == ls@.len(),
            forall|k: int| 0 <= k < i ==> !has_tap_words(words(#[trigger] all[k])),
    {
        assert(all[i as int] == ls@[i as int]@);
        if rows_have_tap_words(&words_of(&ls[i])) {
            return true;
        }
    }
    false
}

/// Whether the description of a link is that of a tap device with the given hardware address on
/// the given bridge.
pub open spec fn is_owned_tap(output: Seq<char>, mac: Seq<char>, bridge: Seq<char>) -> bool {
    is_tap(output) && has_token(output, "link/ether"@, mac) && has_token(output, "master"@, bridge)
}

/// Decides [`is_owned_tap`].
pub fn interface_output_is_owned(output: &str, expected_mac: &str, bridge_name: &str) -> (r: bool)
    ensures
        r == is_owned_tap(output@, expected_mac@, bridge_name@),
{
    interface_output_is_tap(output) && has_link_token(output, "link/ether", expected_mac)
        && has_link_token(output, "master", bridge_name)
}

/// Whether some line says that a link is up and on the given bridge.
pub open spec fn is_attached(output: Seq<char>, bridge: Seq<char>) -> bool {
    exists|i: int|
        0 <= i < lines(output).len() && has_token(
            #[trigger] lines(output)[i],
            "state"@,
            "UP"@,
        ) && has_token(lines(output)[i], "master"@, bridge)
}

/// Decides [`is_attached`].
pub fn interface_is_attached_to(output: &str, bridge_name: &str) -> (r: bool)
    ensures
        r == is_attached(output@, bridge_name@),
{
    let ls = lines_of(&chars_of(output));
    let ghost all = lines(output@);
    assert(rows(ls@).len() == ls@.len());
    for i in 0..ls.len()
        invariant
            rows(ls@) == all,
            all == lines(output@),
            all.len() == ls@.len(),
            forall|k: int|
                0 <= k < i ==> !(has_token(#[trigger] all[k], "state"@, "UP"@) && has_token(
                    all[k],
                    "master"@,
                    bridge_name@,
                )),
    {
        assert(all[i as int] == ls@[i as int]@);
        let w = words_of(&ls[i]);
        if rows_have_token(&w, "state", "UP") && rows_have_token(&w, "master", bridge_name) {
            return true;
        }
    }
    false
}

/// Whether the description of a link says that it is a bridge.
pub open spec fn is_bridge(output: Seq<char>) -> bool {
    exists|i: int|
        0 <= i < lines(output).len() && starts_with(
            trim_start(#[trigger] lines(output)[i]),
            "bridge "@,
        )
}

/// Decides [`is_bridge`].
pub fn interface_output_is_bridge(output: &str) -> (r: bool)
    ensures
        r == is_bridge(output@),
{
    let ls = lines_of(&chars_of(output));
    let ghost all = lines(output@);
    assert(rows(ls@).len() == ls@.len());
    for i in 0..ls.len()
        invariant
            rows(ls@) == all,
            all == lines(output@),
            all.len() == ls@.len(),
            forall|k: int|
                0 <= k < i ==> !starts_with(trim_start(#[trigger] all[k]), "bridge "@),
    {
        assert(all[i as int] == ls@[i as int]@);
        let trimmed = text_of(trim_start_of(&ls[i]));
        if text_starts_with(trimmed.as_str(), "bridge ") {
            return true;
        }
    }
    false
}

// ---------------------------------------------------------------------------
// The identity of a link
// ---------------------------------------------------------------------------

/// The word behind the first occurrence of `key`, from the word at `i` on.
pub open spec fn word_after(w: Seq<Seq<char>>, key: Seq<char>, i: int) -> Option<Seq<char>>
    decreases w.len() - i,
{
    if i < 0 || i + 1 >= w.len() {
        None
    } else if w[i] == key {
        Some(w[i + 1])
    } else {
        word_after(w, key, i + 1)
    }
}

/// Whether all characters of a text are digits.
pub open spec fn all_digits(s: Seq<char>) -> bool {
    forall|i: int| 0 <= i < s.len() ==> is_digit(#[trigger] s[i])
}

/// The identity of a live link in its description: its index in the kernel and, where it is
/// there, its hardware address in lower case.
pub open spec fn identity(output: Seq<char>) -> Option<Seq<char>> {
    let ls = lines(output);
    if ls.len() == 0 {
        None
    } else {
        let first = trim(ls[0]);
        if head_len(first, ':') >= first.len() {
            None
        } else {
            let index = trim(head(first, ':'));
            if !all_digits(index) {
                None
            } else {
                match word_after(words(output), "link/ether"@, 0) {
                    None => Some(index),
                    Some(mac) => Some(index + ":"@ + lower(mac)),
                }
            }
        }
    }
}

fn word_after_of(w: &Vec<Vec<char>>, key: &str) -> (r: Option<String>)
    ensures
        match r {
            Some(s) => word_after(rows(w@), key@, 0) == Some(s@),
            None => word_after(rows(w@), key@, 0) is None,
        },
{
    let ghost ws = rows(w@);
    assert(ws.len() == w@.len());
    if w.len() == 0 {
        return None;
    }
    let mut i: usize = 0;
    while i + 1 < w.len()
        invariant
            ws == rows(w@),
            ws.len() == w@.len(),
            i < w.len(),
            word_after(ws, key@, 0) == word_after(ws, key@, i as int),
        decreases w.len() - i,
    {
        assert(ws[i as int] == w@[i as int]@ && ws[i + 1] == w@[i + 1]@);
        if spells(&w[i], key) {
            let at: usize = i + 1;
            let len: usize = w[at].len();
            let mut copy: Vec<char> = Vec::new();
            for k in 0..len
                invariant
                    at < w.len(),
                    len == w@[at as int].len(),
                    copy@ == w@[at as int]@.take(k as int),
            {
                copy.push(w[at][k]);
                assert(copy@ =~= w@[at as int]@.take(k + 1));
            }
            assert(copy@ =~= w@[at as int]@);
            return Some(text_of(copy));
        }
        i = i + 1;
    }
    None
}

fn is_all_digits(s: &Vec<char>) -> (r: bool)
    ensures
        r == all_digits(s@),
{
    for i in 0..s.len()
        invariant
            forall|k: int| 0 <= k < i ==> is_digit(#[trigger] s@[k]),
    {
        if !char_is_digit(s[i]) {
            return false;
        }
    }
    true
}

/// Computes [`identity`].
pub fn interface_identity(output: &str) -> (r: Option<String>)
    ensures
        match r {
            Some(s) => identity(output@) == Some(s@),
            None => identity(output@) is None,
        },
{
    let chars = chars_of(output);
    let mut ls = lines_of(&chars);
    assert(rows(ls@).len() == ls@.len());
    if ls.len() == 0 {
        return None;
    }
    assert(rows(ls@)[0] == ls@[0]@);
    let line = text_of(ls.swap_remove(0));
    let first = chars_of(trim_of(line.as_str()).as_str());
    let before_colon = head_of(&first, ':');
    proof {
        lemma_head_len(first@, ':');
    }
    if before_colon.len() >= first.len() {
        return None;
    }
    let index = trim_of(text_of(before_colon).as_str());
    if !is_all_digits(&chars_of(index.as_str())) {
        return None;
    }
    match word_after_of(&words_of(&chars), "link/ether") {
        None => Some(index),
        Some(mac) => {
            let mut out = index;
            out.append(":");
            out.append(to_lower(mac.as_str()).as_str());
            Some(out)
        },
    }
}

// ---------------------------------------------------------------------------
// Listings of many links
// ---------------------------------------------------------------------------

/// The description of one link in a listing.
#[verifier::ext_equal]
pub struct LinkBlockView {
    pub name: Seq<char>,
    pub text: Seq<char>,
}

/// The description of one link in a listing.
pub struct LinkBlock {
    pub name: String,
    pub text: String,
}

impl View for LinkBlock {
    type V = LinkBlockView;

    open spec fn view(&self) -> LinkBlockView {
        LinkBlockView { name: self.name@, text: self.text@ }
    }
}

/// The name of the link whose description a line begins: the line starts with a digit, and the
/// name stands between the first colon and blank and the next colon.
pub open spec fn header(line: Seq<char>) -> Option<Seq<char>> {
    match after_first(line, ": "@) {
        None => None,
        Some(rest) => {
            let name = head(rest, ':');
            if is_digit(line[0]) && name.len() > 0 {
                Some(name)
            } else {
                None
            }
        },
    }
}

fn header_of(line: &Vec<char>) -> (r: Option<String>)
    ensures
        match r {
            Some(s) => header(line@) == Some(s@),
            None => header(line@) is None,
        },
{
    match after_first_of(line, ": ") {
        None => None,
        Some(rest) => {
            proof {
                reveal_strlit(": ");
                lemma_after_first_nonempty(line@, ": "@);
            }
            let name = head_of(&rest, ':');
            if char_is_digit(line[0]) && name.len() > 0 {
                Some(text_of(name))
            } else {
                None
            }
        },
    }
}

proof fn lemma_find_from(hay: Seq<char>, needle: Seq<char>, from: int)
    ensures
        crate::text::find_from(hay, needle, from) is Some ==> hay.len() >= needle.len(),
    decreases hay.len() + 1 - from,
{
    if from >= 0 && from + needle.len() <= hay.len() && !occurs_at(hay, needle, from) {
        lemma_find_from(hay, needle, from + 1);
    }
}

proof fn lemma_after_first_nonempty(hay: Seq<char>, needle: Seq<char>)
    requires
        after_first(hay, needle) is Some,
    ensures
        hay.len() >= needle.len(),
{
    lemma_find_from(hay, needle, 0);
}

/// The links in the lines of a listing, each with the lines that describe it. Lines before the
/// first link belong to none.
pub open spec fn blocks(ls: Seq<Seq<char>>) -> Seq<LinkBlockView>
    decreases ls.len(),
{
    if ls.len() == 0 {
        Seq::empty()
    } else {
        let known = blocks(ls.drop_last());
        let line = ls.last();
        match header(line) {
            Some(name) => known.push(LinkBlockView { name, text: line + "\n"@ }),
            None => if known.len() == 0 {
                known
            } else {
                known.drop_last().push(
                    LinkBlockView {
                        name: known.last().name,
                        text: known.last().text + (line + "\n"@),
                    },
                )
            },
        }
    }
}

fn blocks_of(output: &str) -> (r: Vec<LinkBlock>)
    ensures
        crate::model::views(r@) == blocks(lines(output@)),
{
    let ls = lines_of(&chars_of(output));
    let ghost all = lines(output@);
    assert(rows(ls@).len() == ls@.len());
    let mut out: Vec<LinkBlock> = Vec::new();
    assert(all.take(0) =~= Seq::<Seq<char>>::empty());
    assert(crate::model::views(out@) =~= Seq::<LinkBlockView>::empty());
    for i in 0..ls.len()
        invariant
            rows(ls@) == all,
            all.len() == ls@.len(),
            crate::model::views(out@) == blocks(all.take(i as int)),
    {
        proof {
            assert(all[i as int] == ls@[i as int]@);
            assert(all.take(i + 1).drop_last() =~= all.take(i as int));
            assert(all.take(i + 1).last() == all[i as int]);
        }
        let len: usize = ls[i].len();
        let mut copy: Vec<char> = Vec::new();
        for k in 0..len
            invariant
                i < ls.len(),
                len == ls@[i as int].len(),
                copy@ == ls@[i as int]@.take(k as int),
        {
            copy.push(ls[i][k]);
            assert(copy@ =~= ls@[i as int]@.take(k + 1));
        }
        assert(copy@ =~= ls@[i as int]@);
        let mut line = text_of(copy);
        line.append("\n");
        let ghost before = crate::model::views(out@);
        match header_of(&ls[i]) {
            Some(name) => {
                let b = LinkBlock { name, text: line };
                let ghost bv = b@;
                out.push(b);
                assert(crate::model::views(out@) =~= before.push(bv));
            },
            None => {
                assert(before.len() == out@.len());
                match out.pop() {
                    None => {
                        assert(crate::model::views(out@) =~= before);
                    },
                    Some(last) => {
                        let ghost lv = last@;
                        assert(lv == before.last());
                        let mut text = last.text;
                        text.append(line.as_str());
                        let b = LinkBlock { name: last.name, text };
                        let ghost bv = b@;
                        out.push(b);
                        assert(crate::model::views(out@) =~= before.drop_last().push(bv));
                    },
                }
            },
        }
    }
    assert(all.take(all.len() as int) =~= all);
    out
}

/// Whether a link is a managed tap device on the bridge.
pub open spec fn is_managed(b: LinkBlockView, bridge: Seq<char>) -> bool {
    starts_with(b.name, "o3ktap-"@) && is_tap(b.text) && is_attached(b.text, bridge)
}

/// Whether a link is what an interrupted creation left: a tap device or a bridge with a
/// provisional name.
pub open spec fn is_partial(b: LinkBlockView) -> bool {
    is_name(b.name) && ((starts_with(b.name, "o3ktmp-"@) && is_tap(b.text)) || (starts_with(
        b.name,
        "o3kbm-"@,
    ) && is_bridge(b.text)))
}

/// The names of the managed tap devices among links.
pub open spec fn managed_names(bs: Seq<LinkBlockView>, bridge: Seq<char>) -> Seq<Seq<char>>
    decreases bs.len(),
{
    if bs.len() == 0 {
        Seq::empty()
    } else {
        let known = managed_names(bs.drop_last(), bridge);
        if is_managed(bs.last(), bridge) {
            known.push(bs.last().name)
        } else {
            known
        }
    }
}

/// The names of the links that interrupted creations left.
pub open spec fn partial_names(bs: Seq<LinkBlockView>) -> Seq<Seq<char>>
    decreases bs.len(),
{
    if bs.len() == 0 {
        Seq::empty()
    } else {
        let known = partial_names(bs.drop_last());
        if is_partial(bs.last()) {
            known.push(bs.last().name)
        } else {
            known
        }
    }
}

/// The names of the managed tap devices in a listing.
pub fn managed_tap_names(output: &str, bridge_name: &str) -> (r: Vec<String>)
    ensures
        crate::model::views(r@) == managed_names(blocks(lines(output@)), bridge_name@),
{
    let bs = blocks_of(output);
    let ghost all = crate::model::views(bs@);
    let mut out: Vec<String> = Vec::new();
    assert(all.take(0) =~= Seq::<LinkBlockView>::empty());
    assert(crate::model::views(out@) =~= Seq::<Seq<char>>::empty());
    for i in 0..bs.len()
        invariant
            all == crate::model::views(bs@),
            crate::model::views(out@) == managed_names(all.take(i as int), bridge_name@),
    {
        proof {
            assert(all[i as int] == bs@[i as int]@);
            assert(all.take(i + 1).drop_last() =~= all.take(i as int));
        }
        let ghost before = crate::model::views(out@);
        let name = bs[i].name.as_str();
        let text = bs[i].text.as_str();
        if text_starts_with(name, "o3ktap-") && interface_output_is_tap(text)
            && interface_is_attached_to(text, bridge_name) {
            out.push(bs[i].name.clone());
            assert(crate::model::views(out@) =~= before.push(all[i as int].name));
        }
    }
    assert(all.take(all.len() as int) =~= all);
    out
}

/// The names of the links in a listing that interrupted creations left. No bridge is asked for:
/// a creation can be interrupted before the link is attached.
pub fn partial_link_names(output: &str) -> (r: Vec<String>)
    ensures
        crate::model::views(r@) == partial_names(blocks(lines(output@))),
{
    let bs = blocks_of(output);
    let ghost all = crate::model::views(bs@);
    let mut out: Vec<String> = Vec::new();
    assert(all.take(0) =~= Seq::<LinkBlockView>::empty());
    assert(crate::model::views(out@) =~= Seq::<Seq<char>>::empty());
    for i in 0..bs.len()
        invariant
            all == crate::model::views(bs@),
            crate::model::views(out@) == partial_names(all.take(i as int)),
    {
        proof {
            assert(all[i as int] == bs@[i as int]@);
            assert(all.take(i + 1).drop_last() =~= all.take(i as int));
        }
        let ghost before = crate::model::views(out@);
        let name = bs[i].name.as_str();
        let text = bs[i].text.as_str();
        if valid_name(name) && ((text_starts_with(name, "o3ktmp-") && interface_output_is_tap(
            text,
        )) || (text_starts_with(name, "o3kbm-") && interface_output_is_bridge(text))) {
            out.push(bs[i].name.clone());
            assert(crate::model::views(out@) =~= before.push(all[i as int].name));
        }
    }
    assert(all.take(all.len() as int) =~= all);
    out
}

} // verus!
