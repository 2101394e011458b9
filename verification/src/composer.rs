use vstd::prelude::*;
use crate::text::str_eq;

verus! {

/// The views of a sequence of strings.
pub open spec fn string_seq(strings: Seq<String>) -> Seq<Seq<char>> {
    strings.map_values(|s: String| s@)
}

/// `additions` without the entries already in `existing` or earlier in `additions`, in the
/// order in which they first appear.
pub open spec fn new_entries(existing: Seq<Seq<char>>, additions: Seq<Seq<char>>) -> Seq<
    Seq<char>,
>
    decreases additions.len(),
{
    if additions.len() == 0 {
        Seq::empty()
    } else {
        let earlier = new_entries(existing, additions.drop_last());
        if (existing + earlier).contains(additions.last()) {
            earlier
        } else {
            earlier.push(additions.last())
        }
    }
}

/// `s` with each entry kept only at its first appearance.
pub open spec fn first_appearances(s: Seq<Seq<char>>) -> Seq<Seq<char>> {
    new_entries(Seq::empty(), s)
}

/// No entry appears twice.
pub open spec fn no_duplicates(s: Seq<Seq<char>>) -> bool {
    forall|i: int, j: int| 0 <= i < j < s.len() ==> s[i] != s[j]
}

/// New entries never repeat one another or an existing entry, and are exactly the
/// additions not already present.
pub proof fn lemma_new_entries(existing: Seq<Seq<char>>, additions: Seq<Seq<char>>)
    ensures
        no_duplicates(new_entries(existing, additions)),
        forall|x: Seq<char>| #[trigger]
            new_entries(existing, additions).contains(x) ==> !existing.contains(x)
                && additions.contains(x),
        forall|x: Seq<char>|
            #[trigger] additions.contains(x) ==> existing.contains(x) || new_entries(
                existing,
                additions,
            ).contains(x),
    decreases additions.len(),
{
    if additions.len() > 0 {
        let init = additions.drop_last();
        let last = additions.last();
        lemma_new_entries(existing, init);
        let earlier = new_entries(existing, init);
        assert forall|x: Seq<char>| #[trigger] init.contains(x) implies additions.contains(x) by {
            let i = choose|i: int| 0 <= i < init.len() && init[i] == x;
            assert(additions[i] == x);
        }
        assert forall|x: Seq<char>| #[trigger] additions.contains(x) implies init.contains(x) || x
            == last by {
            let i = choose|i: int| 0 <= i < additions.len() && additions[i] == x;
            if i < init.len() {
                assert(init[i] == x);
            }
        }
        if !(existing + earlier).contains(last) {
            let r = earlier.push(last);
            assert(r[r.len() - 1] == last);
            assert forall|x: Seq<char>| #[trigger] r.contains(x) implies earlier.contains(x) || x
                == last by {
                let i = choose|i: int| 0 <= i < r.len() && r[i] == x;
                if i < earlier.len() {
                    assert(earlier[i] == x);
                }
            }
            assert forall|x: Seq<char>| #[trigger] earlier.contains(x) implies r.contains(x) by {
                let i = choose|i: int| 0 <= i < earlier.len() && earlier[i] == x;
                assert(r[i] == x);
            }
            assert forall|i: int, j: int| 0 <= i < j < r.len() implies r[i] != r[j] by {
                if j == r.len() - 1 {
                    assert(r[i] == earlier[i]);
                    if r[i] == last {
                        assert((existing + earlier)[existing.len() + i] == last);
                    }
                }
            }
            assert forall|x: Seq<char>| #[trigger] earlier.contains(x) implies !existing.contains(x) by {}
            if existing.contains(last) {
                let i = choose|i: int| 0 <= i < existing.len() && existing[i] == last;
                assert((existing + earlier)[i] == last);
            }
        } else {
            let i = choose|i: int| 0 <= i < (existing + earlier).len() && (existing + earlier)[i]
                == last;
            if i < existing.len() {
                assert(existing[i] == last);
            } else {
                assert(earlier[i - existing.len()] == last);
            }
        }
    }
}

/// Additions that are all present already bring nothing new.
proof fn lemma_new_entries_of_present(existing: Seq<Seq<char>>, additions: Seq<Seq<char>>)
    requires
        forall|x: Seq<char>| #[trigger] additions.contains(x) ==> existing.contains(x),
    ensures
        new_entries(existing, additions) == Seq::<Seq<char>>::empty(),
    decreases additions.len(),
{
    if additions.len() > 0 {
        let init = additions.drop_last();
        assert forall|x: Seq<char>| #[trigger] init.contains(x) implies existing.contains(x) by {
            let i = choose|i: int| 0 <= i < init.len() && init[i] == x;
            assert(additions[i] == x);
            assert(additions.contains(x));
        }
        lemma_new_entries_of_present(existing, init);
        assert(additions.contains(additions.last())) by {
            assert(additions[additions.len() - 1] == additions.last());
        }
        assert(existing + Seq::<Seq<char>>::empty() =~= existing);
    }
}

/// Attaching the same files again changes nothing: after `existing` has taken in
/// `additions`, taking them in once more adds no entry.
pub proof fn lemma_add_attachments_again(existing: Seq<Seq<char>>, additions: Seq<Seq<char>>)
    ensures
        new_entries(existing + new_entries(existing, additions), additions) == Seq::<
            Seq<char>,
        >::empty(),
{
    let added = new_entries(existing, additions);
    lemma_new_entries(existing, additions);
    assert forall|x: Seq<char>| #[trigger] additions.contains(x) implies (existing
        + added).contains(x) by {
        if existing.contains(x) {
            let i = choose|i: int| 0 <= i < existing.len() && existing[i] == x;
            assert((existing + added)[i] == x);
        } else {
            let i = choose|i: int| 0 <= i < added.len() && added[i] == x;
            assert((existing + added)[existing.len() + i] == x);
        }
    }
    lemma_new_entries_of_present(existing + added, additions);
}

/// Keeping first appearances drops repeats and nothing else: the result has no entry twice
/// and holds exactly the entries of `s`.
pub proof fn lemma_first_appearances(s: Seq<Seq<char>>)
    ensures
        no_duplicates(first_appearances(s)),
        forall|x: Seq<char>| #[trigger] first_appearances(s).contains(x) <==> s.contains(x),
{
    lemma_new_entries(Seq::empty(), s);
}

fn contains_string(list: &Vec<String>, x: &String) -> (r: bool)
    ensures
        r == string_seq(list@).contains(x@),
{
    let ghost v = string_seq(list@);
    let mut i: usize = 0;
    while i < list.len()
        invariant
            v == string_seq(list@),
            i <= list@.len(),
            forall|j: int| 0 <= j < i ==> v[j] != x@,
        decreases list@.len() - i,
    {
        if list[i] == *x {
            assert(v[i as int] == x@);
            return true;
        }
        i = i + 1;
    }
    false
}

/// The panes that a Composer submission goes to: the active pane alone, or when
/// broadcasting, every visible pane that is a terminal with a live surface, each once, in
/// the order in which they are visible.
pub fn submission_target_ids(active: &str, broadcast: bool, visible: Vec<(String, bool, bool)>) -> (ids:
    Vec<String>)
    ensures
        !broadcast ==> ids@.len() == 1 && ids@[0]@ == active@,
        broadcast ==> string_seq(ids@) == first_appearances(
            visible@.filter(|pane: (String, bool, bool)| pane.1 && pane.2).map_values(
                |pane: (String, bool, bool)| pane.0@,
            ),
        ),
{
    if !broadcast {
        return vec![active.to_owned()];
    }
    let ghost pred = |pane: (String, bool, bool)| pane.1 && pane.2;
    let ghost name = |pane: (String, bool, bool)| pane.0@;
    let mut ids: Vec<String> = Vec::new();
    let mut i: usize = 0;
    while i < visible.len()
        invariant
            i <= visible@.len(),
            pred == (|pane: (String, bool, bool)| pane.1 && pane.2),
            name == (|pane: (String, bool, bool)| pane.0@),
            string_seq(ids@) == first_appearances(
                visible@.take(i as int).filter(pred).map_values(name),
            ),
        decreases visible@.len() - i,
    {
        let ghost before = visible@.take(i as int).filter(pred).map_values(name);
        assert(visible@.take(i as int + 1).drop_last() == visible@.take(i as int));
        reveal_with_fuel(Seq::filter, 1);
        let (pane_id, terminal, live) = (&visible[i].0, visible[i].1, visible[i].2);
        if terminal && live {
            let ghost after = visible@.take(i as int + 1).filter(pred).map_values(name);
            assert(after.drop_last() == before);
            assert(after.last() == pane_id@);
            assert(Seq::<Seq<char>>::empty() + first_appearances(before) == first_appearances(before));
            if !contains_string(&ids, pane_id) {
                ids.push(pane_id.clone());
                assert(string_seq(ids@) == first_appearances(before).push(pane_id@));
            }
        } else {
            assert(visible@.take(i as int + 1).filter(pred) == visible@.take(i as int).filter(pred));
        }
        i = i + 1;
    }
    assert(visible@.take(visible@.len() as int) == visible@);
    ids
}

/// The file attachments after adding `paths`: the current ones, then each new path not
/// attached yet, in the order given.
pub fn add_attachments(current: Vec<String>, paths: Vec<String>) -> (attachments: Vec<String>)
    ensures
        string_seq(attachments@) == string_seq(current@) + new_entries(
            string_seq(current@),
            string_seq(paths@),
        ),
{
    let ghost existing = string_seq(current@);
    let mut attachments = current;
    let mut i: usize = 0;
    while i < paths.len()
        invariant
            i <= paths@.len(),
            string_seq(attachments@) == existing + new_entries(
                existing,
                string_seq(paths@).take(i as int),
            ),
        decreases paths@.len() - i,
    {
        let ghost before = new_entries(existing, string_seq(paths@).take(i as int));
        assert(string_seq(paths@).take(i as int + 1).drop_last() == string_seq(paths@).take(
            i as int,
        ));
        let ghost x = paths@[i as int]@;
        assert(string_seq(paths@).take(i as int + 1).last() == x);
        if !contains_string(&attachments, &paths[i]) {
            let ghost old_attachments = string_seq(attachments@);
            attachments.push(paths[i].clone());
            assert(string_seq(attachments@) =~= old_attachments.push(x));
            assert(old_attachments.push(x) =~= existing + before.push(x));
        }
        i = i + 1;
    }
    assert(string_seq(paths@).take(paths@.len() as int) == string_seq(paths@));
    attachments
}

/// The file attachments after removing every entry equal to `path`.
pub fn remove_attachment(current: &Vec<String>, path: &str) -> (attachments: Vec<String>)
    ensures
        string_seq(attachments@) == string_seq(current@).filter(|entry: Seq<char>| entry != path@),
{
    let ghost pred = |entry: Seq<char>| entry != path@;
    let mut attachments: Vec<String> = Vec::new();
    let mut i: usize = 0;
    while i < current.len()
        invariant
            i <= current@.len(),
            pred == (|entry: Seq<char>| entry != path@),
            string_seq(attachments@) == string_seq(current@).take(i as int).filter(pred),
        decreases current@.len() - i,
    {
        assert(string_seq(current@).take(i as int + 1).drop_last() == string_seq(current@).take(
            i as int,
        ));
        reveal_with_fuel(Seq::filter, 1);
        if !str_eq(current[i].as_str(), path) {
            attachments.push(current[i].clone());
        }
        i = i + 1;
    }
    assert(string_seq(current@).take(current@.len() as int) == string_seq(current@));
    attachments
}

/// The font-size step that a shortcut asks for: one point up for `+`, `=` or `plus` and one
/// down for `-` or `minus`, only with the platform modifier held.
pub fn composer_font_shortcut_step(key: &str, platform: bool) -> (step: Option<i8>)
    ensures
        step == (if !platform {
            None
        } else if key@ == "+"@ || key@ == "="@ || key@ == "plus"@ {
            Some(1i8)
        } else if key@ == "-"@ || key@ == "minus"@ {
            Some(-1i8)
        } else {
            None
        }),
{
    if !platform {
        return None;
    }
    if str_eq(key, "+") || str_eq(key, "=") || str_eq(key, "plus") {
        Some(1)
    } else if str_eq(key, "-") || str_eq(key, "minus") {
        Some(-1)
    } else {
        None
    }
}

} // verus!
