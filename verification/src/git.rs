//! Staged changes as an ordered set of per-file patches, gathered line by line.

use crate::prompt::{PromptError, PromptErrorView};
use vstd::prelude::*;
use vstd::string::StringExecFns;

verus! {

/// How many of the most recent commit subjects serve as a style guide.
pub const HISTORY_LIMIT: usize = 10;

/// The history to go by: none in a repository that has no commit yet, else what the walk
/// from the head gave, `None` where it could not be made.
pub fn history(has_commits: bool, walked: Option<Vec<String>>) -> (messages: Option<Vec<String>>)
    ensures
        !has_commits ==> (messages matches Some(none) && none@.len() == 0),
        has_commits ==> messages == walked,
{
    if has_commits {
        walked
    } else {
        Some(Vec::new())
    }
}

/// What happened to a staged file.
#[derive(Clone, Copy, Debug, PartialEq, Eq, Structural)]
pub enum FileDiffType {
    Added,
    Deleted,
    Modified,
}

/// The status that the repository reports for a changed file. Everything but an added, a
/// deleted or a modified file is `Other`: a renamed or a copied file, for one. No patch is
/// kept for such a file.
#[derive(Clone, Copy, Debug, PartialEq, Eq, Structural)]
pub enum DeltaStatus {
    Added,
    Deleted,
    Modified,
    Other,
}

/// The patch of one staged file.
#[derive(Debug)]
pub struct FileDiff {
    pub path: String,
    pub delta_type: FileDiffType,
    pub formatted_diff: String,
}

/// A `FileDiff` as plain values.
pub ghost struct FileDiffView {
    pub path: Seq<char>,
    pub delta_type: FileDiffType,
    pub formatted_diff: Seq<char>,
}

impl View for FileDiff {
    type V = FileDiffView;

    open spec fn view(&self) -> FileDiffView {
        FileDiffView {
            path: self.path@,
            delta_type: self.delta_type,
            formatted_diff: self.formatted_diff@,
        }
    }
}

impl Clone for FileDiff {
    fn clone(&self) -> (copy: Self)
        ensures
            copy@ == self@,
    {
        FileDiff {
            path: self.path.clone(),
            delta_type: self.delta_type,
            formatted_diff: self.formatted_diff.clone(),
        }
    }
}

/// The views of the patches of `diffs`, in order.
pub open spec fn diff_views(diffs: Seq<FileDiff>) -> Seq<FileDiffView> {
    diffs.map_values(|d: FileDiff| d@)
}

/// No two patches of `diffs` are for the same path.
pub open spec fn unique_paths(diffs: Seq<FileDiffView>) -> bool {
    forall|i: int, j: int|
        0 <= i < diffs.len() && 0 <= j < diffs.len() && i != j ==> diffs[i].path != diffs[j].path
}

/// The kind of change that a status stands for, if it is one that a patch is kept for.
pub open spec fn kind_of(status: DeltaStatus) -> Option<FileDiffType> {
    match status {
        DeltaStatus::Added => Some(FileDiffType::Added),
        DeltaStatus::Deleted => Some(FileDiffType::Deleted),
        DeltaStatus::Modified => Some(FileDiffType::Modified),
        DeltaStatus::Other => None,
    }
}

/// The place of the first patch for `path` in `diffs`, or the length of `diffs`.
pub open spec fn place_of(diffs: Seq<FileDiffView>, path: Seq<char>) -> int
    decreases diffs.len(),
{
    if diffs.len() == 0 || diffs[0].path == path {
        0
    } else {
        1 + place_of(diffs.drop_first(), path)
    }
}

/// One line of a patch as it is kept: its origin mark, then its content.
pub open spec fn line_text(origin: char, content: Seq<char>) -> Seq<char> {
    seq![origin] + content
}

/// `diffs` after one more patch line, or `None` where the line is refused. A line of a
/// status that no patch is kept for is passed over: `diffs` stay as they are. Of the other
/// lines, one that names no path is refused, and so is one whose path was seen with another
/// kind of change. A line for a new path opens a patch at the end; a line for a known path
/// is added to the end of that path's patch.
pub open spec fn recorded(
    diffs: Seq<FileDiffView>,
    path: Option<Seq<char>>,
    status: DeltaStatus,
    origin: char,
    content: Seq<char>,
) -> Option<Seq<FileDiffView>> {
    match (path, kind_of(status)) {
        (_, None) => Some(diffs),
        (None, Some(_)) => None,
        (Some(path), Some(kind)) => {
            let at = place_of(diffs, path);
            if at >= diffs.len() {
                Some(
                    diffs.push(
                        FileDiffView {
                            path,
                            delta_type: kind,
                            formatted_diff: line_text(origin, content),
                        },
                    ),
                )
            } else if diffs[at].delta_type != kind {
                None
            } else {
                Some(
                    diffs.update(
                        at,
                        FileDiffView {
                            path,
                            delta_type: kind,
                            formatted_diff: diffs[at].formatted_diff + line_text(origin, content),
                        },
                    ),
                )
            }
        },
    }
}

/// `place_of` is the first place whose patch is for `path`.
pub proof fn lemma_place_of(diffs: Seq<FileDiffView>, path: Seq<char>)
    ensures
        0 <= place_of(diffs, path) <= diffs.len(),
        forall|i: int| 0 <= i < place_of(diffs, path) ==> diffs[i].path != path,
        place_of(diffs, path) < diffs.len() ==> diffs[place_of(diffs, path)].path == path,
    decreases diffs.len(),
{
    if diffs.len() > 0 && diffs[0].path != path {
        lemma_place_of(diffs.drop_first(), path);
        assert forall|i: int| 0 <= i < place_of(diffs, path) implies diffs[i].path != path by {
            if i > 0 {
                assert(diffs[i] == diffs.drop_first()[i - 1]);
            }
        }
    }
}

/// A place whose patch is for `path`, with none for it before, is `place_of`; so is the
/// length of a set without a patch for `path`.
pub proof fn lemma_place_of_is(diffs: Seq<FileDiffView>, path: Seq<char>, at: int)
    requires
        0 <= at <= diffs.len(),
        forall|i: int| 0 <= i < at ==> diffs[i].path != path,
        at < diffs.len() ==> diffs[at].path == path,
    ensures
        place_of(diffs, path) == at,
{
    lemma_place_of(diffs, path);
}

/// Recording a line keeps the paths apart, keeps every earlier patch in its place, and only
/// ever makes a patch longer. A line that is passed over changes nothing.
pub proof fn lemma_recorded_keeps_order(
    diffs: Seq<FileDiffView>,
    path: Option<Seq<char>>,
    status: DeltaStatus,
    origin: char,
    content: Seq<char>,
)
    requires
        unique_paths(diffs),
        recorded(diffs, path, status, origin, content) is Some,
    ensures
        ({
            let after = recorded(diffs, path, status, origin, content).unwrap();
            &&& unique_paths(after)
            &&& diffs.len() <= after.len() <= diffs.len() + 1
            &&& forall|i: int|
                0 <= i < diffs.len() ==> {
                    &&& (#[trigger] after[i]).path == diffs[i].path
                    &&& after[i].delta_type == diffs[i].delta_type
                    &&& diffs[i].formatted_diff.is_prefix_of(after[i].formatted_diff)
                }
            &&& kind_of(status) is None ==> after == diffs
        }),
{
    if path is Some {
        lemma_place_of(diffs, path.unwrap());
    }
}

impl FileDiffType {
    /// The kind of change that `status` stands for, if a patch is kept for it.
    pub fn from_status(status: DeltaStatus) -> (kind: Option<FileDiffType>)
        ensures
            kind == kind_of(status),
    {
        match status {
            DeltaStatus::Added => Some(FileDiffType::Added),
            DeltaStatus::Deleted => Some(FileDiffType::Deleted),
            DeltaStatus::Modified => Some(FileDiffType::Modified),
            DeltaStatus::Other => None,
        }
    }
}

/// The place of the patch for `path` in `diffs`, or the length of `diffs` if there is none.
pub fn find_path(diffs: &Vec<FileDiff>, path: &String) -> (at: usize)
    ensures
        at == place_of(diff_views(diffs@), path@),
        at <= diffs.len(),
{
    let mut at: usize = 0;
    while at < diffs.len() && !(diffs[at].path == *path)
        invariant
            at <= diffs.len(),
            forall|i: int| 0 <= i < at ==> diffs@[i].path@ != path@,
        decreases diffs.len() - at,
    {
        at += 1;
    }
    proof {
        assert forall|i: int| 0 <= i < diffs.len() implies diff_views(diffs@)[i].path
            == diffs@[i].path@ by {}
        lemma_place_of_is(diff_views(diffs@), path@, at as int);
    }
    at
}

/// The path that a line names, as plain values.
pub open spec fn path_view(path: Option<String>) -> Option<Seq<char>> {
    match path {
        Some(p) => Some(p@),
        None => None,
    }
}

/// Takes one line of the staged patch into `diffs`. A line of a status that no patch is
/// kept for, a renamed or a copied file for one, is passed over: `diffs` stay as they are
/// and the line counts as kept. Of the other lines, one is refused, and `diffs` left as they
/// were, where it names no path or where its path was seen before with another kind of
/// change.
pub fn record_line(
    diffs: &mut Vec<FileDiff>,
    path: Option<String>,
    status: DeltaStatus,
    origin: char,
    content: &str,
) -> (kept: bool)
    ensures
        kept == recorded(
            diff_views(old(diffs)@),
            path_view(path),
            status,
            origin,
            content@,
        ) is Some,
        diff_views(final(diffs)@) == match recorded(
            diff_views(old(diffs)@),
            path_view(path),
            status,
            origin,
            content@,
        ) {
            Some(after) => after,
            None => diff_views(old(diffs)@),
        },
        unique_paths(diff_views(old(diffs)@)) ==> unique_paths(diff_views(final(diffs)@)),
{
    proof {
        let given = path_view(path);
        if unique_paths(diff_views(diffs@)) && recorded(
            diff_views(diffs@),
            given,
            status,
            origin,
            content@,
        ) is Some {
            lemma_recorded_keeps_order(diff_views(diffs@), given, status, origin, content@);
        }
    }
    let kind = match FileDiffType::from_status(status) {
        Some(kind) => kind,
        None => {
            return true;
        },
    };
    let path = match path {
        Some(path) => path,
        None => {
            return false;
        },
    };
    let at = find_path(diffs, &path);
    if at >= diffs.len() {
        let mut text = String::new();
        text.push(origin);
        text.append(content);
        let ghost before = diffs@;
        diffs.push(FileDiff { path, delta_type: kind, formatted_diff: text });
        assert(diff_views(diffs@) == diff_views(before).push(diffs@.last()@));
        true
    } else if diffs[at].delta_type != kind {
        false
    } else {
        let ghost before = diffs@;
        let text = &mut diffs[at].formatted_diff;
        text.push(origin);
        text.append(content);
        proof {
            lemma_place_of(diff_views(before), path@);
            assert(diffs@[at as int]@.formatted_diff == before[at as int]@.formatted_diff
                + line_text(origin, content@));
            assert(diff_views(diffs@) =~= diff_views(before).update(
                at as int,
                diffs@[at as int]@,
            ));
        }
        true
    }
}

/// Gathers the staged patch line by line into one patch for each file. The files stay in
/// the order in which their first lines came, and no file has two patches.
pub struct DiffCollector {
    diffs: Vec<FileDiff>,
    refused: bool,
}

impl DiffCollector {
    /// No two patches are for the same path.
    #[verifier::type_invariant]
    spec fn apart(&self) -> bool {
        unique_paths(diff_views(self.diffs@))
    }

    /// The patches that were gathered so far.
    pub closed spec fn collected(&self) -> Seq<FileDiffView> {
        diff_views(self.diffs@)
    }

    /// A line was refused.
    pub closed spec fn was_refused(&self) -> bool {
        self.refused
    }

    /// A collector that has seen no line.
    pub fn new() -> (collector: DiffCollector)
        ensures
            collector.collected().len() == 0,
            !collector.was_refused(),
    {
        DiffCollector { diffs: Vec::new(), refused: false }
    }

    /// Takes one line of the staged patch. A line for a new path opens a patch at the end;
    /// a line for a known path is added to the end of that path's patch. A line of a status
    /// that no patch is kept for, a renamed or a copied file for one, is passed over, and
    /// the collection goes on. Of the other lines, one that names no path, or whose path
    /// was seen before with another kind of change, is refused: nothing is gathered from
    /// it, and the collection fails when it is finished. Hands back whether the walk
    /// through the patch is to go on: `false` for a line that was refused.
    pub fn record(
        &mut self,
        path: Option<String>,
        status: DeltaStatus,
        origin: char,
        content: &str,
    ) -> (kept: bool)
        ensures
            kept == recorded(old(self).collected(), path_view(path), status, origin, content@)
                is Some,
            final(self).collected() == match recorded(
                old(self).collected(),
                path_view(path),
                status,
                origin,
                content@,
            ) {
                Some(after) => after,
                None => old(self).collected(),
            },
            final(self).was_refused() == (old(self).was_refused() || !kept),
            kind_of(status) is None ==> kept && final(self).collected() == old(self).collected()
                && final(self).was_refused() == old(self).was_refused(),
    {
        proof {
            use_type_invariant(&*self);
        }
        let mut diffs: Vec<FileDiff> = Vec::new();
        core::mem::swap(&mut self.diffs, &mut diffs);
        let kept = record_line(&mut diffs, path, status, origin, content);
        core::mem::swap(&mut self.diffs, &mut diffs);
        if !kept {
            self.refused = true;
        }
        kept
    }

    /// The patches that were gathered, in the order in which their files first came, with
    /// no two for the same path. Fails with `GitError` where a line was refused.
    pub fn finish(self) -> (diffs: Result<Vec<FileDiff>, PromptError>)
        ensures
            diffs is Err <==> self.was_refused(),
            diffs matches Err(e) ==> e@ == PromptErrorView::GitError,
            diffs matches Ok(d) ==> diff_views(d@) == self.collected() && unique_paths(
                diff_views(d@),
            ),
    {
        proof {
            use_type_invariant(&self);
        }
        if self.refused {
            Err(PromptError::GitError)
        } else {
            Ok(self.diffs)
        }
    }
}

} // verus!
