//! The filter engine: which tasks each lane shows, given the tag panel.
//!
//! Rule: with no tag selected, every task is shown except those carrying
//! the reserved archive tag; with one or more tags selected, exactly the
//! tasks carrying a selected tag are shown (the archive exclusion does
//! not apply then).

use vstd::prelude::*;
use vstd::string::StringExecFns;

use crate::task::{Task, TaskAbs, LANE_COUNT};

verus! {

/// Mathematical image of a [`TagItem`].
pub ghost struct TagAbs {
    pub name: Seq<char>,
    pub selected: bool,
}

/// One entry of the tag panel: a tag and whether it is selected as a
/// filter.
pub struct TagItem {
    pub name: String,
    pub selected: bool,
}

impl View for TagItem {
    type V = TagAbs;

    open spec fn view(&self) -> TagAbs {
        TagAbs { name: self.name@, selected: self.selected }
    }
}

impl DeepView for TagItem {
    type V = TagAbs;

    open spec fn deep_view(&self) -> TagAbs {
        self.view()
    }
}

/// The reserved tag that hides a task from the default (no-filter) view.
pub open spec fn spec_archive_tag() -> Seq<char> {
    "Archive"@
}

pub fn archive_tag() -> (r: String)
    ensures
        r@ == spec_archive_tag(),
{
    String::from_str("Archive")
}

pub open spec fn task_has_tag(t: TaskAbs, name: Seq<char>) -> bool {
    exists|i: int| 0 <= i < t.tags.len() && t.tags[i] == name
}

pub open spec fn any_tag_selected(tags: Seq<TagAbs>) -> bool {
    exists|i: int| 0 <= i < tags.len() && tags[i].selected
}

pub open spec fn task_matches_selection(t: TaskAbs, tags: Seq<TagAbs>) -> bool {
    exists|i: int|
        0 <= i < tags.len() && tags[i].selected && task_has_tag(t, #[trigger] tags[i].name)
}

/// Whether a task is shown at all under the given tag panel.
pub open spec fn task_visible(t: TaskAbs, tags: Seq<TagAbs>) -> bool {
    if any_tag_selected(tags) {
        task_matches_selection(t, tags)
    } else {
        !task_has_tag(t, spec_archive_tag())
    }
}

/// The tasks a lane shows: the visible tasks of that lane's state, in
/// store order.
pub open spec fn spec_filtered(all: Seq<TaskAbs>, lane: int, tags: Seq<TagAbs>) -> Seq<TaskAbs>
    decreases all.len(),
{
    if all.len() == 0 {
        Seq::empty()
    } else {
        let rest = spec_filtered(all.drop_first(), lane, tags);
        if all[0].state.spec_ordinal() == lane && task_visible(all[0], tags) {
            seq![all[0]] + rest
        } else {
            rest
        }
    }
}

/// Everything a lane shows belongs there and is visible under the
/// panel.
pub proof fn lemma_filtered_sound(all: Seq<TaskAbs>, lane: int, tags: Seq<TagAbs>, x: TaskAbs)
    requires
        spec_filtered(all, lane, tags).contains(x),
    ensures
        x.state.spec_ordinal() == lane,
        task_visible(x, tags),
    decreases all.len(),
{
    if all.len() > 0 {
        let rest = spec_filtered(all.drop_first(), lane, tags);
        if all[0].state.spec_ordinal() == lane && task_visible(all[0], tags) {
            if x != all[0] {
                assert(rest.contains(x)) by {
                    let i = choose|i: int|
                        0 <= i < spec_filtered(all, lane, tags).len() && spec_filtered(
                            all,
                            lane,
                            tags,
                        )[i] == x;
                    assert(rest[i - 1] == x);
                }
                lemma_filtered_sound(all.drop_first(), lane, tags, x);
            }
        } else {
            lemma_filtered_sound(all.drop_first(), lane, tags, x);
        }
    }
}

/// Every stored task of the lane's state that is visible under the
/// panel is shown in that lane.
pub proof fn lemma_filtered_complete(all: Seq<TaskAbs>, lane: int, tags: Seq<TagAbs>, i: int)
    requires
        0 <= i < all.len(),
        all[i].state.spec_ordinal() == lane,
        task_visible(all[i], tags),
    ensures
        spec_filtered(all, lane, tags).contains(all[i]),
    decreases all.len(),
{
    let whole = spec_filtered(all, lane, tags);
    let rest = spec_filtered(all.drop_first(), lane, tags);
    if i == 0 {
        assert(whole[0] == all[0]);
    } else {
        assert(all.drop_first()[i - 1] == all[i]);
        lemma_filtered_complete(all.drop_first(), lane, tags, i - 1);
        let j = choose|j: int| 0 <= j < rest.len() && rest[j] == all[i];
        if all[0].state.spec_ordinal() == lane && task_visible(all[0], tags) {
            assert(whole[j + 1] == all[i]);
        } else {
            assert(whole[j] == all[i]);
        }
    }
}

/// Law: with no tag selected, a task carrying the archive tag is
/// excluded from every lane.
pub proof fn lemma_archive_hidden(all: Seq<TaskAbs>, lane: int, tags: Seq<TagAbs>, x: TaskAbs)
    requires
        !any_tag_selected(tags),
        task_has_tag(x, spec_archive_tag()),
    ensures
        !spec_filtered(all, lane, tags).contains(x),
{
    if spec_filtered(all, lane, tags).contains(x) {
        lemma_filtered_sound(all, lane, tags, x);
    }
}

/// Law: once any tag is selected, an archived task carrying a selected
/// tag is shown in its lane; the archive exclusion no longer applies.
pub proof fn lemma_archive_shown_when_selected(
    all: Seq<TaskAbs>,
    tags: Seq<TagAbs>,
    i: int,
    k: int,
)
    requires
        0 <= i < all.len(),
        0 <= k < tags.len(),
        tags[k].selected,
        task_has_tag(all[i], tags[k].name),
    ensures
        spec_filtered(all, all[i].state.spec_ordinal(), tags).contains(all[i]),
{
    assert(task_matches_selection(all[i], tags));
    lemma_filtered_complete(all, all[i].state.spec_ordinal(), tags, i);
}

fn task_has_tag_exec(t: &Task, name: &String) -> (r: bool)
    ensures
        r == task_has_tag(t@, name@),
{
    let mut i: usize = 0;
    while i < t.tags.len()
        invariant
            i <= t.tags@.len(),
            forall|j: int| 0 <= j < i ==> t@.tags[j] != name@,
        decreases t.tags@.len() - i,
    {
        if t.tags[i].eq(name) {
            proof {
                assert(t@.tags[i as int] == name@);
            }
            return true;
        }
        i += 1;
    }
    false
}

fn any_tag_selected_exec(tags: &Vec<TagItem>) -> (r: bool)
    ensures
        r == any_tag_selected(tags.deep_view()),
{
    let mut i: usize = 0;
    while i < tags.len()
        invariant
            i <= tags@.len(),
            forall|j: int| 0 <= j < i ==> !tags.deep_view()[j].selected,
        decreases tags@.len() - i,
    {
        if tags[i].selected {
            proof {
                assert(tags.deep_view()[i as int].selected);
            }
            return true;
        }
        i += 1;
    }
    false
}

fn task_matches_selection_exec(t: &Task, tags: &Vec<TagItem>) -> (r: bool)
    ensures
        r == task_matches_selection(t@, tags.deep_view()),
{
    let mut i: usize = 0;
    while i < tags.len()
        invariant
            i <= tags@.len(),
            forall|j: int|
                0 <= j < i ==> !(tags.deep_view()[j].selected && task_has_tag(
                    t@,
                    #[trigger] tags.deep_view()[j].name,
                )),
        decreases tags@.len() - i,
    {
        if tags[i].selected && task_has_tag_exec(t, &tags[i].name) {
            proof {
                assert(tags.deep_view()[i as int].selected && task_has_tag(
                    t@,
                    tags.deep_view()[i as int].name,
                ));
            }
            return true;
        }
        i += 1;
    }
    false
}

/// Whether the given task is shown under the given tag panel.
pub fn task_visible_exec(t: &Task, tags: &Vec<TagItem>) -> (r: bool)
    ensures
        r == task_visible(t@, tags.deep_view()),
{
    if any_tag_selected_exec(tags) {
        task_matches_selection_exec(t, tags)
    } else {
        let arch = archive_tag();
        !task_has_tag_exec(t, &arch)
    }
}

/// Strict lexicographic order on character sequences, by code point;
/// the order the tag panel is sorted by (descending).
pub open spec fn lex_lt(a: Seq<char>, b: Seq<char>) -> bool
    decreases a.len(),
{
    if b.len() == 0 {
        false
    } else if a.len() == 0 {
        true
    } else if a[0] != b[0] {
        (a[0] as u32) < (b[0] as u32)
    } else {
        lex_lt(a.drop_first(), b.drop_first())
    }
}

pub proof fn lemma_lex_lt_irrefl(a: Seq<char>)
    ensures
        !lex_lt(a, a),
    decreases a.len(),
{
    if a.len() > 0 {
        lemma_lex_lt_irrefl(a.drop_first());
    }
}

pub proof fn lemma_lex_lt_trans(a: Seq<char>, b: Seq<char>, c: Seq<char>)
    requires
        lex_lt(a, b),
        lex_lt(b, c),
    ensures
        lex_lt(a, c),
    decreases a.len() + b.len() + c.len(),
{
    if c.len() == 0 {
    } else if a.len() == 0 {
    } else {
        // b is non-empty: lex_lt(a, b) with a non-empty forces it
        if a[0] == b[0] && b[0] == c[0] {
            lemma_lex_lt_trans(a.drop_first(), b.drop_first(), c.drop_first());
        }
    }
}

pub proof fn lemma_lex_lt_total(a: Seq<char>, b: Seq<char>)
    requires
        a != b,
    ensures
        lex_lt(a, b) || lex_lt(b, a),
    decreases a.len(),
{
    if a.len() == 0 {
        if b.len() == 0 {
            assert(a =~= b);
        }
    } else if b.len() == 0 {
    } else if a[0] == b[0] {
        assert(a.drop_first() != b.drop_first()) by {
            if a.drop_first() == b.drop_first() {
                assert(a.drop_first().len() == b.drop_first().len());
                assert(a.len() == b.len());
                assert forall|i: int| 0 <= i < a.len() implies a[i] == b[i] by {
                    if i > 0 {
                        assert(a.drop_first()[i - 1] == a[i]);
                        assert(b.drop_first()[i - 1] == b[i]);
                    }
                }
                assert(a =~= b);
            }
        }
        lemma_lex_lt_total(a.drop_first(), b.drop_first());
    } else {
        assert((a[0] as u32) != (b[0] as u32)) by {
            if (a[0] as u32) == (b[0] as u32) {
                vstd::utf8::char_u32_cast(a[0], a[0] as u32);
                vstd::utf8::char_u32_cast(b[0], b[0] as u32);
            }
        }
    }
}

/// The tag panel is strictly descending (hence duplicate-free).
pub open spec fn sorted_desc_distinct(tags: Seq<TagAbs>) -> bool {
    forall|i: int, j: int|
        0 <= i < j < tags.len() ==> lex_lt(#[trigger] tags[j].name, #[trigger] tags[i].name)
}

/// Some entry of the panel carries this name.
pub open spec fn contains_name(tags: Seq<TagAbs>, name: Seq<char>) -> bool {
    exists|i: int| 0 <= i < tags.len() && (#[trigger] tags[i].name) == name
}

/// Some entry of the panel carries this name and is selected.
pub open spec fn selected_in(tags: Seq<TagAbs>, name: Seq<char>) -> bool {
    exists|i: int| 0 <= i < tags.len() && (#[trigger] tags[i].name) == name && tags[i].selected
}

/// Some task in the list carries this tag.
pub open spec fn tag_in_tasks(all: Seq<TaskAbs>, name: Seq<char>) -> bool {
    exists|i: int| 0 <= i < all.len() && task_has_tag(#[trigger] all[i], name)
}

/// Compare two tag names in the panel's order.
pub fn str_lex_lt(a: &String, b: &String) -> (r: bool)
    ensures
        r == lex_lt(a@, b@),
{
    let an = a.as_str().unicode_len();
    let bn = b.as_str().unicode_len();
    let mut i: usize = 0;
    proof {
        assert(a@.skip(0) =~= a@);
        assert(b@.skip(0) =~= b@);
    }
    while i < an && i < bn
        invariant
            i <= an,
            i <= bn,
            an == a@.len(),
            bn == b@.len(),
            lex_lt(a@, b@) == lex_lt(a@.skip(i as int), b@.skip(i as int)),
        decreases an - i,
    {
        let ca = a.as_str().get_char(i);
        let cb = b.as_str().get_char(i);
        proof {
            assert(a@.skip(i as int)[0] == a@[i as int]);
            assert(b@.skip(i as int)[0] == b@[i as int]);
            assert(a@.skip(i as int).drop_first() =~= a@.skip(i as int + 1));
            assert(b@.skip(i as int).drop_first() =~= b@.skip(i as int + 1));
        }
        if ca != cb {
            return (ca as u32) < (cb as u32);
        }
        i += 1;
    }
    proof {
        if i >= bn {
            assert(b@.skip(i as int).len() == 0);
        } else {
            assert(a@.skip(i as int).len() == 0);
            assert(b@.skip(i as int).len() > 0);
        }
    }
    i < bn
}

/// Whether the panel has this name selected as a filter.
fn selected_flag_of(tags: &Vec<TagItem>, name: &String) -> (r: bool)
    ensures
        r == selected_in(tags.deep_view(), name@),
{
    let mut i: usize = 0;
    while i < tags.len()
        invariant
            i <= tags@.len(),
            forall|j: int|
                0 <= j < i ==> !((#[trigger] tags.deep_view()[j].name) == name@
                    && tags.deep_view()[j].selected),
        decreases tags@.len() - i,
    {
        if tags[i].name.eq(name) && tags[i].selected {
            proof {
                assert(tags.deep_view()[i as int].name == name@ && tags.deep_view()[
                    i as int
                ].selected);
            }
            return true;
        }
        i += 1;
    }
    false
}

/// Locate a name in the descending panel: either the index where it
/// already sits, or the slot where it belongs.
fn find_slot(list: &Vec<TagItem>, name: &String) -> (r: (bool, usize))
    requires
        sorted_desc_distinct(list.deep_view()),
    ensures
        r.0 ==> r.1 < list.deep_view().len() && list.deep_view()[r.1 as int].name == name@,
        !r.0 ==> {
            &&& r.1 <= list.deep_view().len()
            &&& forall|j: int|
                0 <= j < r.1 ==> lex_lt(name@, (#[trigger] list.deep_view()[j]).name)
            &&& r.1 == list.deep_view().len() || lex_lt(
                list.deep_view()[r.1 as int].name,
                name@,
            )
        },
{
    let ghost lv = list.deep_view();
    let mut pos: usize = 0;
    while pos < list.len()
        invariant
            pos <= list@.len(),
            lv == list.deep_view(),
            lv.len() == list@.len(),
            forall|j: int| 0 <= j < pos ==> lex_lt(name@, (#[trigger] lv[j]).name),
        decreases list@.len() - pos,
    {
        if list[pos].name.eq(name) {
            proof {
                assert(lv[pos as int].name == name@);
            }
            return (true, pos);
        }
        if str_lex_lt(&list[pos].name, name) {
            return (false, pos);
        }
        proof {
            assert(lv[pos as int].name != name@);
            lemma_lex_lt_total(name@, lv[pos as int].name);
        }
        pos += 1;
    }
    (false, pos)
}

/// Insert a tag into the descending panel, keeping it sorted and
/// duplicate-free; a name already present leaves the panel unchanged.
fn insert_tag_sorted(list: &mut Vec<TagItem>, name: String, selected: bool)
    requires
        sorted_desc_distinct(old(list).deep_view()),
    ensures
        sorted_desc_distinct(final(list).deep_view()),
        contains_name(final(list).deep_view(), name@),
        forall|k: int|
            0 <= k < old(list).deep_view().len() ==> contains_name(
                final(list).deep_view(),
                (#[trigger] old(list).deep_view()[k]).name,
            ),
        forall|k: int|
            0 <= k < final(list).deep_view().len() ==> contains_name(
                old(list).deep_view(),
                (#[trigger] final(list).deep_view()[k]).name,
            ) || final(list).deep_view()[k].name == name@,
        forall|k: int|
            0 <= k < final(list).deep_view().len() ==> (#[trigger] final(list).deep_view()[k])
                == (TagAbs { name: name@, selected }) || old(list).deep_view().contains(
                final(list).deep_view()[k],
            ),
{
    let ghost lv = old(list).deep_view();
    let (present, pos) = find_slot(list, &name);
    if present {
        proof {
            assert(contains_name(lv, name@));
            assert(forall|k: int| 0 <= k < lv.len() ==> contains_name(lv, (#[trigger] lv[k]).name));
            assert(forall|k: int| 0 <= k < lv.len() ==> lv.contains(#[trigger] lv[k]));
        }
        return ;
    }
    proof {
        // nothing at or after `pos` can carry `name`: those entries are
        // strictly below it in the order
        assert forall|j: int| pos <= j < lv.len() implies lex_lt(
            (#[trigger] lv[j]).name,
            name@,
        ) by {
            if j > pos {
                lemma_lex_lt_trans(lv[j].name, lv[pos as int].name, name@);
            }
        }
        assert forall|j: int| 0 <= j < lv.len() implies (#[trigger] lv[j]).name != name@ by {
            if j < pos {
                lemma_lex_lt_irrefl(lv[j].name);
            } else {
                lemma_lex_lt_irrefl(name@);
            }
        }
    }
    let ghost item = TagAbs { name: name@, selected };
    list.insert(pos, TagItem { name, selected });
    proof {
        let nv = list.deep_view();
        assert(nv =~~= lv.insert(pos as int, item));
        assert(nv.len() == lv.len() + 1);
        assert(forall|k: int| 0 <= k < pos ==> nv[k] == lv[k]);
        assert(nv[pos as int] == item);
        assert(forall|k: int| pos < k < nv.len() ==> nv[k] == lv[k - 1]);
        assert forall|i: int, j: int| 0 <= i < j < nv.len() implies lex_lt(
            (#[trigger] nv[j]).name,
            (#[trigger] nv[i]).name,
        ) by {
            if i == pos as int && j > pos {
                assert(lex_lt(lv[j - 1].name, name@));
            } else if j == pos as int && i < pos {
                assert(lex_lt(name@, lv[i].name));
            }
        }
        assert(nv[pos as int].name == name@);
        assert(contains_name(nv, name@));
        assert forall|k: int| 0 <= k < lv.len() implies contains_name(
            nv,
            (#[trigger] lv[k]).name,
        ) by {
            if k < pos {
                assert(nv[k].name == lv[k].name);
            } else {
                assert(pos < k + 1 < nv.len());
                assert(nv[k + 1] == lv[k + 1 - 1]);
                assert(nv[k + 1].name == lv[k].name);
            }
        }
        assert forall|k: int|
            0 <= k < nv.len() implies (#[trigger] nv[k]) == item || lv.contains(nv[k]) by {
            if k < pos {
                assert(lv[k] == nv[k]);
            } else if k > pos {
                assert(lv[k - 1] == nv[k]);
            }
        }
        assert forall|k: int|
            0 <= k < nv.len() implies contains_name(lv, (#[trigger] nv[k]).name) || nv[k].name
                == name@ by {
            if k < pos {
                assert(lv[k].name == nv[k].name);
            } else if k > pos {
                assert(lv[k - 1].name == nv[k].name);
            }
        }
    }
}

/// Recompute the tag panel: every distinct tag of any stored task, in
/// descending order, keeping the selected flags the old panel had.
pub fn refresh_tags(all: &Vec<Task>, old_tags: &Vec<TagItem>) -> (r: Vec<TagItem>)
    ensures
        sorted_desc_distinct(r.deep_view()),
        forall|k: int|
            0 <= k < r.deep_view().len() ==> tag_in_tasks(
                all.deep_view(),
                (#[trigger] r.deep_view()[k]).name,
            ),
        forall|i: int, j: int|
            0 <= i < all.deep_view().len() && 0 <= j < all.deep_view()[i].tags.len()
                ==> contains_name(r.deep_view(), #[trigger] all.deep_view()[i].tags[j]),
        forall|k: int|
            0 <= k < r.deep_view().len() ==> ((#[trigger] r.deep_view()[k]).selected
                <==> selected_in(old_tags.deep_view(), r.deep_view()[k].name)),
{
    let ghost av = all.deep_view();
    let ghost ov = old_tags.deep_view();
    let mut r: Vec<TagItem> = Vec::new();
    let mut i: usize = 0;
    while i < all.len()
        invariant
            i <= all@.len(),
            av == all.deep_view(),
            ov == old_tags.deep_view(),
            av.len() == all@.len(),
            sorted_desc_distinct(r.deep_view()),
            forall|k: int|
                0 <= k < r.deep_view().len() ==> tag_in_tasks(
                    av,
                    (#[trigger] r.deep_view()[k]).name,
                ),
            forall|i2: int, j2: int|
                0 <= i2 < i && 0 <= j2 < av[i2].tags.len() ==> contains_name(
                    r.deep_view(),
                    #[trigger] av[i2].tags[j2],
                ),
            forall|k: int|
                0 <= k < r.deep_view().len() ==> ((#[trigger] r.deep_view()[k]).selected
                    <==> selected_in(ov, r.deep_view()[k].name)),
        decreases all@.len() - i,
    {
        let task = &all[i];
        let mut j: usize = 0;
        while j < task.tags.len()
            invariant
                j <= task.tags@.len(),
                task == all@[i as int],
                i < all@.len(),
                av == all.deep_view(),
                ov == old_tags.deep_view(),
                av.len() == all@.len(),
                task@ == av[i as int],
                sorted_desc_distinct(r.deep_view()),
                forall|k: int|
                    0 <= k < r.deep_view().len() ==> tag_in_tasks(
                        av,
                        (#[trigger] r.deep_view()[k]).name,
                    ),
                forall|i2: int, j2: int|
                    0 <= i2 < i && 0 <= j2 < av[i2].tags.len() ==> contains_name(
                        r.deep_view(),
                        #[trigger] av[i2].tags[j2],
                    ),
                forall|j2: int|
                    0 <= j2 < j ==> contains_name(r.deep_view(), #[trigger] av[i as int].tags[j2]),
                forall|k: int|
                    0 <= k < r.deep_view().len() ==> ((#[trigger] r.deep_view()[k]).selected
                        <==> selected_in(ov, r.deep_view()[k].name)),
            decreases task.tags@.len() - j,
        {
            let name = task.tags[j].clone();
            proof {
                assert(name@ == av[i as int].tags[j as int]);
                assert(task_has_tag(av[i as int], name@));
            }
            let selected = selected_flag_of(old_tags, &name);
            let ghost before = r.deep_view();
            insert_tag_sorted(&mut r, name, selected);
            proof {
                let nv = r.deep_view();
                assert forall|k: int|
                    0 <= k < nv.len() implies ((#[trigger] nv[k]).selected <==> selected_in(
                    ov,
                    nv[k].name,
                )) by {
                    if nv[k] != (TagAbs { name: av[i as int].tags[j as int], selected }) {
                        assert(before.contains(nv[k]));
                        let k2 = choose|k2: int| 0 <= k2 < before.len() && before[k2] == nv[k];
                        assert(before[k2].selected <==> selected_in(ov, before[k2].name));
                    }
                }
                assert forall|k: int|
                    0 <= k < nv.len() implies tag_in_tasks(av, (#[trigger] nv[k]).name) by {
                    if contains_name(before, nv[k].name) {
                    } else {
                        assert(nv[k].name == av[i as int].tags[j as int]);
                    }
                }
            }
            j += 1;
        }
        i += 1;
    }
    r
}

/// Recompute one lane's task list from the full store contents.
pub fn filter_lane(all: &Vec<Task>, lane: usize, tags: &Vec<TagItem>) -> (r: Vec<Task>)
    requires
        lane < LANE_COUNT,
    ensures
        r.deep_view() == spec_filtered(all.deep_view(), lane as int, tags.deep_view()),
{
    let ghost av = all.deep_view();
    let ghost tv = tags.deep_view();
    let mut r: Vec<Task> = Vec::new();
    let mut i: usize = 0;
    proof {
        assert(av.skip(0) =~= av);
        assert(r.deep_view() =~~= Seq::<TaskAbs>::empty());
        assert(Seq::<TaskAbs>::empty() + spec_filtered(av, lane as int, tv) =~= spec_filtered(
            av,
            lane as int,
            tv,
        ));
    }
    while i < all.len()
        invariant
            i <= all@.len(),
            lane < LANE_COUNT,
            av == all.deep_view(),
            tv == tags.deep_view(),
            av.len() == all@.len(),
            spec_filtered(av, lane as int, tv) == r.deep_view() + spec_filtered(
                av.skip(i as int),
                lane as int,
                tv,
            ),
        decreases all@.len() - i,
    {
        proof {
            assert(av.skip(i as int)[0] == av[i as int]);
            assert(av.skip(i as int).drop_first() =~= av.skip(i as int + 1));
            assert(all@[i as int]@ == av[i as int]);
        }
        let t = &all[i];
        if t.state.ordinal() == lane && task_visible_exec(t, tags) {
            let ghost old_r = r.deep_view();
            r.push(t.duplicate());
            proof {
                assert(r.deep_view() =~~= old_r.push(av[i as int]));
                assert(old_r + (seq![av[i as int]] + spec_filtered(
                    av.skip(i as int + 1),
                    lane as int,
                    tv,
                )) =~= r.deep_view() + spec_filtered(av.skip(i as int + 1), lane as int, tv));
            }
        }
        i += 1;
    }
    proof {
        assert(av.skip(av.len() as int) =~= Seq::<TaskAbs>::empty());
        assert(r.deep_view() =~= spec_filtered(av, lane as int, tv));
    }
    r
}

} // verus!
