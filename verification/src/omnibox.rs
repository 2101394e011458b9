use vstd::prelude::*;
use vstd::string::StringExecFns;
use crate::scoring::{match_score, score, MAX_QUERY_CHARS};
use crate::text::{blank, concat2, is_blank};

verus! {

/// The list an omnibox search runs over.
#[derive(Debug, Clone, Copy, PartialEq, Eq, Structural)]
pub enum Scope {
    OpenTabs,
    Projects,
    RecentlyRemovedProjects,
    Worktrees,
    Workspaces,
    CommandShortcuts,
}

/// The word that names what a scope lists; it takes part in every haystack of the scope.
pub open spec fn search_word_of(scope: Scope) -> Seq<char> {
    match scope {
        Scope::Projects => "project"@,
        Scope::RecentlyRemovedProjects => "recently removed project"@,
        Scope::Worktrees => "worktree"@,
        Scope::Workspaces => "workspace"@,
        Scope::OpenTabs => "open tab"@,
        Scope::CommandShortcuts => "custom command"@,
    }
}

impl Scope {
    /// Placeholder text of the search field.
    pub fn placeholder(self) -> (text: &'static str)
        ensures
            text@ == match self {
                Scope::Projects => "Search project..."@,
                Scope::RecentlyRemovedProjects => "Search recently removed projects..."@,
                Scope::Worktrees => "Search worktree..."@,
                Scope::Workspaces => "Search workspace..."@,
                Scope::OpenTabs => "Search open tabs..."@,
                Scope::CommandShortcuts => "Search custom commands..."@,
            },
    {
        match self {
            Scope::Projects => "Search project...",
            Scope::RecentlyRemovedProjects => "Search recently removed projects...",
            Scope::Worktrees => "Search worktree...",
            Scope::Workspaces => "Search workspace...",
            Scope::OpenTabs => "Search open tabs...",
            Scope::CommandShortcuts => "Search custom commands...",
        }
    }

    /// Text shown when nothing matches.
    pub fn empty_state(self) -> (text: &'static str)
        ensures
            text@ == match self {
                Scope::Projects => "No projects found"@,
                Scope::RecentlyRemovedProjects => "No recently removed projects"@,
                Scope::Worktrees => "No worktrees found"@,
                Scope::Workspaces => "No workspaces found"@,
                Scope::OpenTabs => "No open tabs found"@,
                Scope::CommandShortcuts => "No custom commands found"@,
            },
    {
        match self {
            Scope::Projects => "No projects found",
            Scope::RecentlyRemovedProjects => "No recently removed projects",
            Scope::Worktrees => "No worktrees found",
            Scope::Workspaces => "No workspaces found",
            Scope::OpenTabs => "No open tabs found",
            Scope::CommandShortcuts => "No custom commands found",
        }
    }

    /// Label of the key that confirms a row.
    pub fn return_label(self) -> (text: &'static str)
        ensures
            text@ == match self {
                Scope::Projects | Scope::Worktrees | Scope::Workspaces => "Switch"@,
                Scope::RecentlyRemovedProjects => "Restore"@,
                Scope::OpenTabs | Scope::CommandShortcuts => "Open"@,
            },
    {
        match self {
            Scope::Projects | Scope::Worktrees | Scope::Workspaces => "Switch",
            Scope::RecentlyRemovedProjects => "Restore",
            Scope::OpenTabs | Scope::CommandShortcuts => "Open",
        }
    }

    /// The word that names what the scope lists.
    pub fn search_word(self) -> (text: &'static str)
        ensures
            text@ == search_word_of(self),
    {
        match self {
            Scope::Projects => "project",
            Scope::RecentlyRemovedProjects => "recently removed project",
            Scope::Worktrees => "worktree",
            Scope::Workspaces => "workspace",
            Scope::OpenTabs => "open tab",
            Scope::CommandShortcuts => "custom command",
        }
    }
}

/// What confirming a row does.
#[derive(Debug, Clone, PartialEq, Eq)]
pub enum ItemAction {
    SelectProject(String),
    RestoreProject(String),
    SelectWorktree { project_id: String, worktree_id: String },
    SelectGroup(Option<String>),
    SelectTab { project_id: String, worktree_path: String, tab_id: String },
    RunCommand(String),
    RunExtensionCommand { extension_id: String, command_id: String },
}

/// The abstract value of an [`ItemAction`].
pub enum ActionView {
    SelectProject(Seq<char>),
    RestoreProject(Seq<char>),
    SelectWorktree { project_id: Seq<char>, worktree_id: Seq<char> },
    SelectGroup(Option<Seq<char>>),
    SelectTab { project_id: Seq<char>, worktree_path: Seq<char>, tab_id: Seq<char> },
    RunCommand(Seq<char>),
    RunExtensionCommand { extension_id: Seq<char>, command_id: Seq<char> },
}

impl View for ItemAction {
    type V = ActionView;

    open spec fn view(&self) -> ActionView {
        match self {
            ItemAction::SelectProject(id) => ActionView::SelectProject(id@),
            ItemAction::RestoreProject(id) => ActionView::RestoreProject(id@),
            ItemAction::SelectWorktree { project_id, worktree_id } => ActionView::SelectWorktree {
                project_id: project_id@,
                worktree_id: worktree_id@,
            },
            ItemAction::SelectGroup(id) => ActionView::SelectGroup(id.deep_view()),
            ItemAction::SelectTab { project_id, worktree_path, tab_id } => ActionView::SelectTab {
                project_id: project_id@,
                worktree_path: worktree_path@,
                tab_id: tab_id@,
            },
            ItemAction::RunCommand(id) => ActionView::RunCommand(id@),
            ItemAction::RunExtensionCommand { extension_id, command_id } =>
                ActionView::RunExtensionCommand {
                extension_id: extension_id@,
                command_id: command_id@,
            },
        }
    }
}

/// One row of the omnibox.
#[derive(Debug, Clone)]
pub struct Item {
    pub id: String,
    pub symbol: String,
    pub section: String,
    pub title: String,
    pub subtitle: Option<String>,
    pub search_key: String,
    pub action: ItemAction,
    pub unread: bool,
}

/// The abstract value of an [`Item`].
pub struct ItemView {
    pub id: Seq<char>,
    pub symbol: Seq<char>,
    pub section: Seq<char>,
    pub title: Seq<char>,
    pub subtitle: Option<Seq<char>>,
    pub search_key: Seq<char>,
    pub action: ActionView,
    pub unread: bool,
}

impl View for Item {
    type V = ItemView;

    open spec fn view(&self) -> ItemView {
        ItemView {
            id: self.id@,
            symbol: self.symbol@,
            section: self.section@,
            title: self.title@,
            subtitle: self.subtitle.deep_view(),
            search_key: self.search_key@,
            action: self.action@,
            unread: self.unread,
        }
    }
}

/// What a screen reader announces for a row.
pub open spec fn accessibility_label_of(item: ItemView) -> Seq<char> {
    if item.unread {
        item.title + ", unread"@
    } else {
        item.title
    }
}

impl Item {
    /// The title, followed by ", unread" when the row has unread notifications.
    pub fn accessibility_label(&self) -> (label: String)
        ensures
            label@ == accessibility_label_of(self@),
    {
        if self.unread {
            concat2(self.title.as_str(), ", unread")
        } else {
            self.title.clone()
        }
    }
}

/// The text a row is searched by, before folding: its search key, title, subtitle, section
/// and the scope's word, separated by spaces.
pub open spec fn haystack_of(item: ItemView, scope: Scope) -> Seq<char> {
    let subtitle = match item.subtitle {
        Some(s) => s,
        None => Seq::empty(),
    };
    item.search_key + " "@ + item.title + " "@ + subtitle + " "@ + item.section + " "@
        + search_word_of(scope)
}

/// The text a row is searched by, before folding.
pub fn haystack(item: &Item, scope: Scope) -> (text: String)
    ensures
        text@ == haystack_of(item@, scope),
{
    let mut text = item.search_key.clone();
    text.append(" ");
    text.append(item.title.as_str());
    text.append(" ");
    match &item.subtitle {
        Some(subtitle) => text.append(subtitle.as_str()),
        None => {
            assert(text@ + Seq::<char>::empty() == text@);
        },
    }
    text.append(" ");
    text.append(item.section.as_str());
    text.append(" ");
    text.append(scope.search_word());
    text
}


/// The first row, at or before row `i`, of the section of row `i`: sections are ranked by
/// their first appearance.
pub open spec fn section_rank(items: Seq<ItemView>, i: int) -> int {
    choose|j: int| is_first_of_section(items, i, j)
}

/// Row `j` is the first row whose section is that of row `i`.
pub open spec fn is_first_of_section(items: Seq<ItemView>, i: int, j: int) -> bool {
    &&& 0 <= j <= i
    &&& items[j].section == items[i].section
    &&& forall|k: int| 0 <= k < j ==> items[k].section != items[i].section
}

/// The score of row `i` (meaningful when it has one).
pub open spec fn row_score(haystacks: Seq<Seq<char>>, folded_query: Seq<char>, i: int) -> int {
    match match_score(haystacks[i], folded_query) {
        Some(v) => v,
        None => 0,
    }
}

/// Row `i` comes before row `j`: an earlier section first, then a higher score, then the
/// input order.
pub open spec fn ranks_before(
    items: Seq<ItemView>,
    haystacks: Seq<Seq<char>>,
    folded_query: Seq<char>,
    i: int,
    j: int,
) -> bool {
    let (ri, rj) = (section_rank(items, i), section_rank(items, j));
    let (si, sj) = (row_score(haystacks, folded_query, i), row_score(haystacks, folded_query, j));
    ri < rj || (ri == rj && (si > sj || (si == sj && i < j)))
}

/// `order` lists each row that the query matches exactly once, in ranking order.
pub open spec fn is_ranking(
    items: Seq<ItemView>,
    haystacks: Seq<Seq<char>>,
    folded_query: Seq<char>,
    order: Seq<int>,
) -> bool {
    &&& forall|k: int|
        0 <= k < order.len() ==> 0 <= #[trigger] order[k] < items.len() && match_score(
            haystacks[order[k]],
            folded_query,
        ) is Some
    &&& forall|i: int|
        0 <= i < items.len() && (#[trigger] match_score(haystacks[i], folded_query)) is Some
            ==> exists|k: int| 0 <= k < order.len() && order[k] == i
    &&& forall|k: int, l: int|
        0 <= k < l < order.len() ==> ranks_before(
            items,
            haystacks,
            folded_query,
            #[trigger] order[k],
            #[trigger] order[l],
        )
}

/// The views of a vector of rows.
pub open spec fn views(items: Seq<Item>) -> Seq<ItemView> {
    items.map_values(|item: Item| item@)
}

/// Views of rows with one more row.
pub proof fn lemma_views_push(items: Seq<Item>, item: Item)
    ensures
        views(items.push(item)) == views(items).push(item@),
{
    assert(views(items.push(item)) =~= views(items).push(item@));
}

/// Mapping a sequence with one more element.
pub proof fn lemma_map_push<A, B>(s: Seq<A>, x: A, f: spec_fn(A) -> B)
    ensures
        s.push(x).map_values(f) == s.map_values(f).push(f(x)),
{
    assert(s.push(x).map_values(f) =~= s.map_values(f).push(f(x)));
}

/// The views of a vector of strings.
pub open spec fn string_views(strings: Seq<String>) -> Seq<Seq<char>> {
    strings.map_values(|s: String| s@)
}

proof fn lemma_first_of_section_unique(items: Seq<ItemView>, i: int, j: int)
    requires
        is_first_of_section(items, i, j),
    ensures
        section_rank(items, i) == j,
{
    let r = section_rank(items, i);
    assert(is_first_of_section(items, i, r));
    if r < j {
        assert(items[r].section != items[i].section);
    }
    if j < r {
        assert(items[j].section != items[i].section);
    }
}

proof fn lemma_find_first_of_section(items: Seq<ItemView>, i: int, from: int) -> (j: int)
    requires
        0 <= from <= i < items.len(),
        forall|k: int| 0 <= k < from ==> items[k].section != items[i].section,
    ensures
        is_first_of_section(items, i, j),
    decreases i - from,
{
    if items[from].section == items[i].section {
        from
    } else {
        lemma_find_first_of_section(items, i, from + 1)
    }
}

proof fn lemma_section_rank(items: Seq<ItemView>, i: int)
    requires
        0 <= i < items.len(),
    ensures
        is_first_of_section(items, i, section_rank(items, i)),
        forall|k: int|
            0 <= k < items.len() && items[k].section == items[i].section ==> section_rank(
                items,
                k,
            ) == section_rank(items, i),
{
    let j = lemma_find_first_of_section(items, i, 0);
    lemma_first_of_section_unique(items, i, j);
    assert forall|k: int|
        0 <= k < items.len() && items[k].section == items[i].section implies section_rank(
        items,
        k,
    ) == section_rank(items, i) by {
        if j > k {
            assert(items[k].section != items[i].section);
        }
        assert(is_first_of_section(items, k, j));
        lemma_first_of_section_unique(items, k, j);
    }
}

fn first_row_of_section(items: &Vec<Item>, i: usize) -> (j: usize)
    requires
        i < items@.len(),
    ensures
        j as int == section_rank(views(items@), i as int),
{
    let ghost v = views(items@);
    let mut j: usize = 0;
    while items[j].section != items[i].section
        invariant
            v == views(items@),
            j <= i < items@.len(),
            forall|k: int| 0 <= k < j ==> v[k].section != v[i as int].section,
        decreases i - j,
    {
        j = j + 1;
    }
    proof {
        lemma_first_of_section_unique(v, i as int, j as int);
    }
    j
}

fn key_before(ra: usize, sa: i32, a: usize, rb: usize, sb: i32, b: usize) -> (r: bool)
    ensures
        r == (ra < rb || (ra == rb && (sa > sb || (sa == sb && a < b)))),
{
    ra < rb || (ra == rb && (sa > sb || (sa == sb && a < b)))
}

/// Ranks the rows for a query.
///
/// A query that is blank once trimmed leaves the rows as they are. Otherwise only the rows
/// whose folded haystack the folded query scores against stay, grouped by section in the
/// order in which the sections first appear, best score first within a section and in
/// their input order among equal scores. `haystacks[i]` is the folded haystack of
/// `items[i]`, and `folded_query` the folded, trimmed query.
pub fn ranked(items: Vec<Item>, query: &str, folded_query: &str, haystacks: &Vec<String>) -> (out:
    Vec<Item>)
    requires
        haystacks@.len() == items@.len(),
        folded_query@.len() <= MAX_QUERY_CHARS,
    ensures
        is_blank(query@) ==> out@ == items@,
        !is_blank(query@) ==> exists|order: Seq<int>|
            {
                &&& #[trigger] is_ranking(
                    views(items@),
                    string_views(haystacks@),
                    folded_query@,
                    order,
                )
                &&& order.len() == out@.len()
                &&& forall|k: int| 0 <= k < order.len() ==> out@[k] == items@[order[k]]
            },
{
    if blank(query) {
        return items;
    }
    let n = items.len();
    let ghost iv = views(items@);
    let ghost hv = string_views(haystacks@);
    let ghost q = folded_query@;
    let mut ranks: Vec<usize> = Vec::new();
    let mut scores: Vec<Option<i32>> = Vec::new();
    let mut i: usize = 0;
    while i < n
        invariant
            n == items@.len() == haystacks@.len(),
            iv == views(items@),
            hv == string_views(haystacks@),
            q == folded_query@,
            q.len() <= MAX_QUERY_CHARS,
            i <= n,
            ranks@.len() == i,
            scores@.len() == i,
            forall|k: int| 0 <= k < i ==> #[trigger] ranks@[k] as int == section_rank(iv, k),
            forall|k: int|
                0 <= k < i ==> match #[trigger] scores@[k] {
                    Some(v) => match_score(hv[k], q) == Some(v as int),
                    None => match_score(hv[k], q) is None,
                },
        decreases n - i,
    {
        ranks.push(first_row_of_section(&items, i));
        scores.push(score(haystacks[i].as_str(), folded_query));
        i = i + 1;
    }
    let mut order: Vec<usize> = Vec::new();
    let mut i: usize = 0;
    while i < n
        invariant
            n == items@.len() == haystacks@.len(),
            iv == views(items@),
            hv == string_views(haystacks@),
            q == folded_query@,
            i <= n,
            ranks@.len() == n,
            scores@.len() == n,
            forall|k: int| 0 <= k < n ==> #[trigger] ranks@[k] as int == section_rank(iv, k),
            forall|k: int|
                0 <= k < n ==> match #[trigger] scores@[k] {
                    Some(v) => match_score(hv[k], q) == Some(v as int),
                    None => match_score(hv[k], q) is None,
                },
            forall|k: int|
                0 <= k < order@.len() ==> #[trigger] order@[k] < i && match_score(
                    hv[order@[k] as int],
                    q,
                ) is Some,
            forall|j: int|
                0 <= j < i && (#[trigger] match_score(hv[j], q)) is Some ==> exists|k: int|
                    0 <= k < order@.len() && order@[k] == j,
            forall|k: int, l: int|
                0 <= k < l < order@.len() ==> ranks_before(
                    iv,
                    hv,
                    q,
                    #[trigger] order@[k] as int,
                    #[trigger] order@[l] as int,
                ),
        decreases n - i,
    {
        if let Some(si) = scores[i] {
            let ri = ranks[i];
            let mut p: usize = 0;
            while p < order.len() && key_before(
                ranks[order[p]],
                scores[order[p]].unwrap(),
                order[p],
                ri,
                si,
                i,
            )
                invariant
                    n == items@.len() == haystacks@.len(),
                    ranks@.len() == n,
                    scores@.len() == n,
                    i < n,
                    p <= order@.len(),
                    forall|k: int|
                        0 <= k < order@.len() ==> #[trigger] order@[k] < i && (
                        scores@[order@[k] as int] is Some),
                    forall|k: int|
                        0 <= k < p ==> ranks_before(iv, hv, q, #[trigger] order@[k] as int, i as int),
                    forall|k: int| 0 <= k < n ==> #[trigger] ranks@[k] as int == section_rank(iv, k),
                    forall|k: int|
                        0 <= k < n ==> match #[trigger] scores@[k] {
                            Some(v) => match_score(hv[k], q) == Some(v as int),
                            None => match_score(hv[k], q) is None,
                        },
                    scores@[i as int] == Some(si),
                    ranks@[i as int] == ri,
                decreases order@.len() - p,
            {
                p = p + 1;
            }
            let ghost old_order = order@;
            proof {
                if p < old_order.len() {
                    let x = old_order[p as int] as int;
                    assert(!ranks_before(iv, hv, q, x, i as int));
                    assert forall|l: int| p <= l < old_order.len() implies ranks_before(
                        iv,
                        hv,
                        q,
                        i as int,
                        #[trigger] old_order[l] as int,
                    ) by {
                        if l > p {
                            assert(ranks_before(iv, hv, q, x, old_order[l] as int));
                        }
                    }
                }
            }
            order.insert(p, i);
            proof {
                let no = order@;
                assert forall|k: int, l: int|
                    0 <= k < l < no.len() implies ranks_before(
                    iv,
                    hv,
                    q,
                    #[trigger] no[k] as int,
                    #[trigger] no[l] as int,
                ) by {
                    if l < p {
                        assert(no[k] == old_order[k] && no[l] == old_order[l]);
                    } else if l == p {
                        assert(no[k] == old_order[k]);
                    } else if k == p {
                        assert(no[l] == old_order[l - 1]);
                    } else if k < p {
                        assert(no[k] == old_order[k] && no[l] == old_order[l - 1]);
                        assert(ranks_before(iv, hv, q, old_order[k] as int, i as int));
                        assert(ranks_before(iv, hv, q, i as int, old_order[l - 1] as int));
                    } else {
                        assert(no[k] == old_order[k - 1] && no[l] == old_order[l - 1]);
                    }
                }
                assert forall|j: int|
                    0 <= j < i + 1 && (#[trigger] match_score(hv[j], q)) is Some implies exists|
                    k: int,
                | 0 <= k < no.len() && no[k] == j by {
                    if j == i {
                        assert(no[p as int] == i);
                    } else {
                        let k = choose|k: int| 0 <= k < old_order.len() && old_order[k] == j;
                        if k < p {
                            assert(no[k] == j);
                        } else {
                            assert(no[k + 1] == j);
                        }
                    }
                }
            }
        } else {
            proof {
                assert forall|j: int|
                    0 <= j < i + 1 && (#[trigger] match_score(hv[j], q)) is Some implies exists|
                    k: int,
                | 0 <= k < order@.len() && order@[k] == j by {
                    if j == i {
                        assert(scores@[j] is None);
                    }
                }
            }
        }
        i = i + 1;
    }
    let out = take_in_order(items, &order);
    proof {
        let oi = order@.map_values(|x: usize| x as int);
        assert forall|i: int|
            0 <= i < iv.len() && (#[trigger] match_score(hv[i], q)) is Some implies exists|k: int|
            0 <= k < oi.len() && oi[k] == i by {
            let k = choose|k: int| 0 <= k < order@.len() && order@[k] == i;
            assert(oi[k] == i);
        }
        assert(is_ranking(iv, hv, q, oi));
        assert forall|k: int| 0 <= k < oi.len() implies out@[k] == items@[oi[k]] by {
            assert(oi[k] == order@[k] as int);
        }
    }
    out
}

/// Sections never interleave in a ranking: a row that stands between two rows of one
/// section belongs to that section too.
pub proof fn lemma_ranking_keeps_sections_together(
    items: Seq<ItemView>,
    haystacks: Seq<Seq<char>>,
    folded_query: Seq<char>,
    order: Seq<int>,
    a: int,
    b: int,
    c: int,
)
    requires
        is_ranking(items, haystacks, folded_query, order),
        0 <= a < b < c < order.len(),
        items[order[a]].section == items[order[c]].section,
    ensures
        items[order[b]].section == items[order[a]].section,
{
    let (x, y, z) = (order[a], order[b], order[c]);
    assert(ranks_before(items, haystacks, folded_query, x, y));
    assert(ranks_before(items, haystacks, folded_query, y, z));
    lemma_section_rank(items, x);
    lemma_section_rank(items, y);
    assert(section_rank(items, z) == section_rank(items, x));
}

/// Within one section, rows with equal scores keep their input order.
pub proof fn lemma_ranking_keeps_order_of_ties(
    items: Seq<ItemView>,
    haystacks: Seq<Seq<char>>,
    folded_query: Seq<char>,
    order: Seq<int>,
    k: int,
    l: int,
)
    requires
        is_ranking(items, haystacks, folded_query, order),
        0 <= k < l < order.len(),
        items[order[k]].section == items[order[l]].section,
        match_score(haystacks[order[k]], folded_query) == match_score(
            haystacks[order[l]],
            folded_query,
        ),
    ensures
        order[k] < order[l],
{
    assert(ranks_before(items, haystacks, folded_query, order[k], order[l]));
    lemma_section_rank(items, order[k]);
}

/// Within one section, a better score always comes first.
pub proof fn lemma_ranking_puts_better_scores_first(
    items: Seq<ItemView>,
    haystacks: Seq<Seq<char>>,
    folded_query: Seq<char>,
    order: Seq<int>,
    k: int,
    l: int,
)
    requires
        is_ranking(items, haystacks, folded_query, order),
        0 <= k < l < order.len(),
        items[order[k]].section == items[order[l]].section,
    ensures
        row_score(haystacks, folded_query, order[k]) >= row_score(
            haystacks,
            folded_query,
            order[l],
        ),
{
    assert(ranks_before(items, haystacks, folded_query, order[k], order[l]));
    lemma_section_rank(items, order[k]);
}

/// Moves the rows at the positions listed in `order` (distinct and in range) into a new
/// vector, in that order.
fn take_in_order(items: Vec<Item>, order: &Vec<usize>) -> (out: Vec<Item>)
    requires
        forall|k: int| 0 <= k < order@.len() ==> #[trigger] order@[k] < items@.len(),
        forall|k: int, l: int| 0 <= k < l < order@.len() ==> #[trigger] order@[k] != #[trigger] order@[l],
    ensures
        out@.len() == order@.len(),
        forall|k: int| 0 <= k < order@.len() ==> out@[k] == items@[order@[k] as int],
{
    let n = items.len();
    let ghost input = items@;
    let mut items = items;
    let mut slots: Vec<Option<Item>> = Vec::new();
    while items.len() > 0
        invariant
            n == input.len(),
            items@ == input.take(items@.len() as int),
            slots@.len() == n - items@.len(),
            forall|k: int| 0 <= k < slots@.len() ==> #[trigger] slots@[k] == Some(input[n - 1 - k]),
        decreases items@.len(),
    {
        let ghost before = items@;
        let item = items.pop().unwrap();
        slots.push(Some(item));
        assert(items@ == input.take(items@.len() as int));
    }
    let mut out: Vec<Item> = Vec::new();
    let mut k: usize = 0;
    while k < order.len()
        invariant
            n == input.len(),
            slots@.len() == n,
            forall|a: int| 0 <= a < order@.len() ==> #[trigger] order@[a] < n,
            forall|a: int, b: int| 0 <= a < b < order@.len() ==> #[trigger] order@[a] != #[trigger] order@[b],
            k <= order@.len(),
            out@.len() == k,
            forall|a: int| 0 <= a < k ==> out@[a] == input[order@[a] as int],
            forall|a: int|
                k <= a < order@.len() ==> slots@[n - 1 - order@[a]] == Some(input[order@[a] as int]),
        decreases order@.len() - k,
    {
        assert(order@[k as int] < n);
        let slot = n - 1 - order[k];
        let mut taken: Option<Item> = None;
        std::mem::swap(&mut slots[slot], &mut taken);
        assert(taken == Some(input[order@[k as int] as int]));
        out.push(taken.unwrap());
        k = k + 1;
    }
    out
}

} // verus!
