//! Which workspace shows which plain folder.

use crate::path::{equivalent, absolute, same_place, PathBuf, PathRules};
use crate::text::{is_blank, trimmed};
use vstd::prelude::*;
use vstd::string::*;

verus! {

/// A folder and the workspace that shows it.
#[derive(Debug, PartialEq, Eq)]
pub struct FolderBinding {
    pub folder: PathBuf,
    pub workspace_id: String,
}

pub struct FolderBindingV {
    pub folder: Seq<u8>,
    pub workspace_id: Seq<char>,
}

impl DeepView for FolderBinding {
    type V = FolderBindingV;

    open spec fn deep_view(&self) -> FolderBindingV {
        FolderBindingV { folder: self.folder@, workspace_id: self.workspace_id@ }
    }
}

impl Clone for FolderBinding {
    fn clone(&self) -> (binding: Self)
        ensures
            binding.deep_view() == self.deep_view(),
    {
        FolderBinding { folder: self.folder.clone(), workspace_id: self.workspace_id.clone() }
    }
}

/// Whether a binding can be kept: its folder is absolute and its workspace has a name.
pub open spec fn bindable(folder: Seq<u8>, workspace_id: Seq<char>, rules: PathRules) -> bool {
    absolute(folder, rules) && trimmed(workspace_id).len() > 0
}

/// The bindings but those of a folder.
pub open spec fn without_folder(bindings: Seq<FolderBindingV>, folder: Seq<u8>, rules: PathRules) -> Seq<
    FolderBindingV,
>
    decreases bindings.len(),
{
    if bindings.len() == 0 {
        bindings
    } else {
        let before = without_folder(bindings.drop_last(), folder, rules);
        if same_place(bindings.last().folder, folder, rules) {
            before
        } else {
            before.push(bindings.last())
        }
    }
}

/// The workspace that a folder is bound to.
pub open spec fn workspace_of(bindings: Seq<FolderBindingV>, folder: Seq<u8>, rules: PathRules) -> Option<Seq<char>>
    decreases bindings.len(),
{
    if bindings.len() == 0 {
        None
    } else if same_place(bindings[0].folder, folder, rules) {
        Some(bindings[0].workspace_id)
    } else {
        workspace_of(bindings.drop_first(), folder, rules)
    }
}

/// Every folder is absolute and bound once, to a workspace with a name.
pub open spec fn bindings_wf(bindings: Seq<FolderBindingV>, rules: PathRules) -> bool {
    &&& forall|i: int|
        0 <= i < bindings.len() ==> bindable(
            (#[trigger] bindings[i]).folder,
            bindings[i].workspace_id,
            rules,
        )
    &&& forall|i: int, j: int|
        0 <= i < j < bindings.len() ==> !same_place(
            (#[trigger] bindings[i]).folder,
            (#[trigger] bindings[j]).folder,
            rules,
        )
}

/// The bindings after one more, which replaces the one that its folder had.
pub open spec fn with_binding(bindings: Seq<FolderBindingV>, added: FolderBindingV, rules: PathRules) -> Seq<
    FolderBindingV,
> {
    without_folder(bindings, added.folder, rules).push(added)
}

proof fn lemma_without_folder(bindings: Seq<FolderBindingV>, folder: Seq<u8>, rules: PathRules)
    ensures
        forall|i: int|
            0 <= i < without_folder(bindings, folder, rules).len() ==> !same_place(
                (#[trigger] without_folder(bindings, folder, rules)[i]).folder,
                folder,
                rules,
            ) && bindings.contains(without_folder(bindings, folder, rules)[i]),
        bindings_wf(bindings, rules) ==> bindings_wf(without_folder(bindings, folder, rules), rules),
        without_folder(bindings, folder, rules).len() <= bindings.len(),
    decreases bindings.len(),
{
    let out = without_folder(bindings, folder, rules);
    if bindings.len() > 0 {
        let before = bindings.drop_last();
        let inner = without_folder(before, folder, rules);
        lemma_without_folder(before, folder, rules);
        assert forall|i: int| 0 <= i < out.len() implies !same_place(
            (#[trigger] out[i]).folder,
            folder,
            rules,
        ) && bindings.contains(out[i]) by {
            if i < inner.len() {
                assert(out[i] == inner[i]);
                let k = choose|k: int| 0 <= k < before.len() && before[k] == inner[i];
                assert(bindings[k] == out[i]);
            } else {
                assert(bindings[bindings.len() - 1] == out[i]);
            }
        }
        if bindings_wf(bindings, rules) {
            assert(bindings_wf(before, rules)) by {
                assert forall|i: int| 0 <= i < before.len() implies bindable(
                    (#[trigger] before[i]).folder,
                    before[i].workspace_id,
                    rules,
                ) by {
                    assert(bindings[i] == before[i]);
                }
                assert forall|i: int, j: int| 0 <= i < j < before.len() implies !same_place(
                    (#[trigger] before[i]).folder,
                    (#[trigger] before[j]).folder,
                    rules,
                ) by {
                    assert(!same_place(bindings[i].folder, bindings[j].folder, rules));
                }
            }
            assert forall|i: int| 0 <= i < out.len() implies bindable(
                (#[trigger] out[i]).folder,
                out[i].workspace_id,
                rules,
            ) by {
                let k = choose|k: int| 0 <= k < bindings.len() && bindings[k] == out[i];
                assert(bindable(bindings[k].folder, bindings[k].workspace_id, rules));
            }
            assert forall|i: int, j: int| 0 <= i < j < out.len() implies !same_place(
                (#[trigger] out[i]).folder,
                (#[trigger] out[j]).folder,
                rules,
            ) by {
                assert(out[i] == inner[i]);
                if j < inner.len() {
                    assert(out[j] == inner[j]);
                    assert(!same_place(inner[i].folder, inner[j].folder, rules));
                } else {
                    let k = choose|k: int| 0 <= k < before.len() && before[k] == inner[i];
                    assert(!same_place(
                        bindings[k].folder,
                        bindings[bindings.len() - 1].folder,
                        rules,
                    ));
                }
            }
        }
    }
}

/// A new binding keeps the bindings in order.
pub proof fn lemma_with_binding_wf(bindings: Seq<FolderBindingV>, added: FolderBindingV, rules: PathRules)
    requires
        bindings_wf(bindings, rules),
        bindable(added.folder, added.workspace_id, rules),
    ensures
        bindings_wf(with_binding(bindings, added, rules), rules),
{
    lemma_without_folder(bindings, added.folder, rules);
    let kept = without_folder(bindings, added.folder, rules);
    let out = with_binding(bindings, added, rules);
    assert forall|i: int| 0 <= i < out.len() implies bindable(
        (#[trigger] out[i]).folder,
        out[i].workspace_id,
        rules,
    ) by {
        if i < kept.len() {
            assert(bindable(kept[i].folder, kept[i].workspace_id, rules));
        }
    }
    assert forall|i: int, j: int| 0 <= i < j < out.len() implies !same_place(
        (#[trigger] out[i]).folder,
        (#[trigger] out[j]).folder,
        rules,
    ) by {
        assert(!same_place(kept[i].folder, added.folder, rules));
        if j < kept.len() {
            assert(!same_place(kept[i].folder, kept[j].folder, rules));
        }
    }
}

proof fn lemma_workspace_behind(bindings: Seq<FolderBindingV>, last: FolderBindingV, folder: Seq<u8>, rules: PathRules)
    requires
        forall|i: int|
            0 <= i < bindings.len() ==> !same_place((#[trigger] bindings[i]).folder, folder, rules),
    ensures
        workspace_of(bindings.push(last), folder, rules) == if same_place(last.folder, folder, rules) {
            Some(last.workspace_id)
        } else {
            None
        },
    decreases bindings.len(),
{
    reveal_with_fuel(workspace_of, 2);
    let all = bindings.push(last);
    if bindings.len() == 0 {
        assert(all.drop_first() =~= Seq::<FolderBindingV>::empty());
    } else {
        let rest = bindings.drop_first();
        assert(!same_place(bindings[0].folder, folder, rules));
        assert forall|i: int| 0 <= i < rest.len() implies !same_place(
            (#[trigger] rest[i]).folder,
            folder,
            rules,
        ) by {
            assert(!same_place(bindings[i + 1].folder, folder, rules));
        }
        assert(all.drop_first() =~= rest.push(last));
        lemma_workspace_behind(rest, last, folder, rules);
    }
}

/// What was recorded for a folder is what a lookup of the folder finds.
pub proof fn lemma_lookup_finds_recorded(bindings: Seq<FolderBindingV>, added: FolderBindingV, rules: PathRules)
    ensures
        workspace_of(with_binding(bindings, added, rules), added.folder, rules) == Some(added.workspace_id),
{
    lemma_without_folder(bindings, added.folder, rules);
    lemma_workspace_behind(without_folder(bindings, added.folder, rules), added, added.folder, rules);
}

/// What is wrong with a saved binding.
pub open spec fn binding_problem(binding: FolderBindingV, rules: PathRules) -> Option<Seq<char>> {
    if !absolute(binding.folder, rules) {
        Some("folder path must be absolute"@)
    } else if trimmed(binding.workspace_id).len() == 0 {
        Some("workspace id must not be empty"@)
    } else {
        None
    }
}

/// The bindings of a saved list, where a later binding of a folder replaces an earlier one,
/// or what is wrong with the first bad one.
pub open spec fn restored(saved: Seq<FolderBindingV>, rules: PathRules) -> Result<Seq<FolderBindingV>, Seq<char>>
    decreases saved.len(),
{
    if saved.len() == 0 {
        Ok(Seq::empty())
    } else {
        match restored(saved.drop_last(), rules) {
            Err(problem) => Err(problem),
            Ok(before) => match binding_problem(saved.last(), rules) {
                Some(problem) => Err(problem),
                None => Ok(with_binding(before, saved.last(), rules)),
            },
        }
    }
}

proof fn lemma_restored_fails_early(saved: Seq<FolderBindingV>, count: int, rules: PathRules)
    requires
        0 <= count <= saved.len(),
    ensures
        restored(saved.take(count), rules) is Err ==> restored(saved, rules) == restored(saved.take(count), rules),
    decreases saved.len(),
{
    if count == saved.len() {
        assert(saved.take(count) =~= saved);
    } else {
        lemma_restored_fails_early(saved.drop_last(), count, rules);
        assert(saved.drop_last().take(count) =~= saved.take(count));
    }
}

#[derive(Debug, PartialEq, Eq)]
pub struct FolderBindings {
    pub bindings: Vec<FolderBinding>,
}

impl DeepView for FolderBindings {
    type V = Seq<FolderBindingV>;

    open spec fn deep_view(&self) -> Seq<FolderBindingV> {
        self.bindings.deep_view()
    }
}

impl FolderBindings {
    pub fn new() -> (bindings: FolderBindings)
        ensures
            bindings.deep_view() == Seq::<FolderBindingV>::empty(),
    {
        let bindings = FolderBindings { bindings: Vec::new() };
        assert(bindings.bindings.deep_view() =~= Seq::empty());
        bindings
    }

    /// The workspace that a canonical folder is bound to; a relative path is bound to none.
    pub fn lookup(&self, folder: &PathBuf, rules: PathRules) -> (workspace: Option<&String>)
        ensures
            workspace.deep_view() == if absolute(folder@, rules) {
                workspace_of(self.deep_view(), folder@, rules)
            } else {
                None
            },
    {
        if !folder.is_absolute(rules) {
            return None;
        }
        let ghost all = self.deep_view();
        let mut i: usize = 0;
        assert(all.skip(0) =~= all);
        while i < self.bindings.len()
            invariant
                i <= self.bindings.len(),
                all == self.deep_view(),
                absolute(folder@, rules),
                workspace_of(all, folder@, rules) == workspace_of(all.skip(i as int), folder@, rules),
            decreases self.bindings.len() - i,
        {
            proof {
                assert(all.skip(i as int)[0] == self.bindings@[i as int].deep_view());
                assert(all.skip(i as int).drop_first() =~= all.skip(i + 1));
            }
            if equivalent(&self.bindings[i].folder, folder, rules) {
                return Some(&self.bindings[i].workspace_id);
            }
            i = i + 1;
        }
        assert(all.skip(i as int) =~= Seq::<FolderBindingV>::empty());
        None
    }

    #[verifier::loop_isolation(false)]
    fn drop_folder(&mut self, folder: &PathBuf, rules: PathRules)
        ensures
            final(self).deep_view() == without_folder(old(self).deep_view(), folder@, rules),
    {
        let ghost all = self.deep_view();
        let mut kept: Vec<FolderBinding> = Vec::new();
        let mut i: usize = 0;
        assert(kept.deep_view() =~= without_folder(all.take(0), folder@, rules));
        while i < self.bindings.len()
            invariant
                i <= self.bindings.len(),
                kept.deep_view() == without_folder(all.take(i as int), folder@, rules),
            decreases self.bindings.len() - i,
        {
            let ghost before = kept.deep_view();
            proof {
                assert(all.take(i + 1).drop_last() =~= all.take(i as int));
                assert(all.take(i + 1).last() == self.bindings@[i as int].deep_view());
            }
            if !equivalent(&self.bindings[i].folder, folder, rules) {
                let binding = self.bindings[i].clone();
                let ghost added = binding.deep_view();
                kept.push(binding);
                assert(kept.deep_view() =~= before.push(added));
            }
            i = i + 1;
        }
        assert(all.take(all.len() as int) =~= all);
        self.bindings = kept;
    }

    /// Binds a canonical folder to a workspace; says whether there is something to save.
    pub fn record(&mut self, folder: &PathBuf, workspace_id: String, rules: PathRules) -> (changed:
        bool)
        ensures
            changed == bindable(folder@, workspace_id@, rules),
            final(self).deep_view() == if bindable(folder@, workspace_id@, rules) {
                with_binding(
                    old(self).deep_view(),
                    FolderBindingV { folder: folder@, workspace_id: workspace_id@ },
                    rules,
                )
            } else {
                old(self).deep_view()
            },
            bindings_wf(old(self).deep_view(), rules) ==> bindings_wf(final(self).deep_view(), rules),
    {
        if !folder.is_absolute(rules) || is_blank(workspace_id.as_str()) {
            return false;
        }
        let ghost start = self.deep_view();
        self.drop_folder(folder, rules);
        let ghost kept = self.deep_view();
        let binding = FolderBinding { folder: folder.clone(), workspace_id };
        let ghost added = binding.deep_view();
        self.bindings.push(binding);
        assert(self.bindings.deep_view() =~= kept.push(added));
        proof {
            if bindings_wf(start, rules) {
                lemma_with_binding_wf(start, added, rules);
            }
        }
        true
    }

    /// Forgets the workspace of a canonical folder; says whether there is something to save.
    pub fn remove(&mut self, folder: &PathBuf, rules: PathRules) -> (changed: bool)
        ensures
            final(self).deep_view() == if absolute(folder@, rules) {
                without_folder(old(self).deep_view(), folder@, rules)
            } else {
                old(self).deep_view()
            },
            changed == (final(self).deep_view().len() != old(self).deep_view().len()),
            bindings_wf(old(self).deep_view(), rules) ==> bindings_wf(final(self).deep_view(), rules),
    {
        if !folder.is_absolute(rules) {
            return false;
        }
        let ghost start = self.deep_view();
        let before: usize = self.bindings.len();
        self.drop_folder(folder, rules);
        proof {
            lemma_without_folder(start, folder@, rules);
        }
        self.bindings.len() != before
    }

    /// The bindings of a saved list, whose folders are canonical, or what is wrong with the
    /// first bad one.
    #[verifier::loop_isolation(false)]
    pub fn from_saved(saved: Vec<FolderBinding>, rules: PathRules) -> (result: Result<
        FolderBindings,
        &'static str,
    >)
        ensures
            match restored(saved.deep_view(), rules) {
                Ok(bindings) => result is Ok && result->Ok_0.deep_view() == bindings
                    && bindings_wf(bindings, rules),
                Err(problem) => result is Err && result->Err_0@ == problem,
            },
    {
        let ghost all = saved.deep_view();
        let mut bindings = FolderBindings::new();
        let mut i: usize = 0;
        while i < saved.len()
            invariant
                i <= saved.len(),
                restored(all.take(i as int), rules) == Ok::<Seq<FolderBindingV>, Seq<char>>(
                    bindings.deep_view(),
                ),
                bindings_wf(bindings.deep_view(), rules),
            decreases saved.len() - i,
        {
            proof {
                assert(all.take(i + 1).drop_last() =~= all.take(i as int));
                assert(all.take(i + 1).last() == saved@[i as int].deep_view());
                lemma_restored_fails_early(all, i + 1, rules);
            }
            if !saved[i].folder.is_absolute(rules) {
                return Err("folder path must be absolute");
            }
            if is_blank(saved[i].workspace_id.as_str()) {
                return Err("workspace id must not be empty");
            }
            let _ = bindings.record(&saved[i].folder, saved[i].workspace_id.clone(), rules);
            i = i + 1;
        }
        assert(all.take(all.len() as int) =~= all);
        Ok(bindings)
    }
}

proof fn lemma_without_absent_folder(bindings: Seq<FolderBindingV>, folder: Seq<u8>, rules: PathRules)
    requires
        forall|i: int|
            0 <= i < bindings.len() ==> !same_place((#[trigger] bindings[i]).folder, folder, rules),
    ensures
        without_folder(bindings, folder, rules) == bindings,
    decreases bindings.len(),
{
    if bindings.len() > 0 {
        let before = bindings.drop_last();
        assert forall|i: int| 0 <= i < before.len() implies !same_place(
            (#[trigger] before[i]).folder,
            folder,
            rules,
        ) by {
            assert(!same_place(bindings[i].folder, folder, rules));
        }
        lemma_without_absent_folder(before, folder, rules);
        assert(!same_place(bindings[bindings.len() - 1].folder, folder, rules));
        assert(before.push(bindings.last()) =~= bindings);
    }
}

/// Bindings that were saved are read back as they were.
pub proof fn lemma_saved_bindings_read_back(bindings: Seq<FolderBindingV>, rules: PathRules)
    requires
        bindings_wf(bindings, rules),
    ensures
        restored(bindings, rules) == Ok::<Seq<FolderBindingV>, Seq<char>>(bindings),
    decreases bindings.len(),
{
    if bindings.len() > 0 {
        let before = bindings.drop_last();
        let last = bindings.last();
        assert forall|i: int| 0 <= i < before.len() implies bindable(
            (#[trigger] before[i]).folder,
            before[i].workspace_id,
            rules,
        ) by {
            assert(bindable(bindings[i].folder, bindings[i].workspace_id, rules));
        }
        assert forall|i: int, j: int| 0 <= i < j < before.len() implies !same_place(
            (#[trigger] before[i]).folder,
            (#[trigger] before[j]).folder,
            rules,
        ) by {
            assert(!same_place(bindings[i].folder, bindings[j].folder, rules));
        }
        lemma_saved_bindings_read_back(before, rules);
        assert forall|i: int| 0 <= i < before.len() implies !same_place(
            (#[trigger] before[i]).folder,
            last.folder,
            rules,
        ) by {
            assert(!same_place(bindings[i].folder, bindings[bindings.len() - 1].folder, rules));
        }
        lemma_without_absent_folder(before, last.folder, rules);
        assert(bindable(bindings[bindings.len() - 1].folder, last.workspace_id, rules));
        assert(before.push(last) =~= bindings);
    } else {
        assert(bindings =~= Seq::empty());
    }
}

/// A folder that was forgotten is bound to nothing.
pub proof fn lemma_removed_folder_is_unbound(bindings: Seq<FolderBindingV>, folder: Seq<u8>, rules: PathRules)
    ensures
        workspace_of(without_folder(bindings, folder, rules), folder, rules) is None,
{
    lemma_without_folder(bindings, folder, rules);
    lemma_unbound(without_folder(bindings, folder, rules), folder, rules);
}

proof fn lemma_unbound(bindings: Seq<FolderBindingV>, folder: Seq<u8>, rules: PathRules)
    requires
        forall|i: int|
            0 <= i < bindings.len() ==> !same_place((#[trigger] bindings[i]).folder, folder, rules),
    ensures
        workspace_of(bindings, folder, rules) is None,
    decreases bindings.len(),
{
    if bindings.len() > 0 {
        let rest = bindings.drop_first();
        assert(!same_place(bindings[0].folder, folder, rules));
        assert forall|i: int| 0 <= i < rest.len() implies !same_place(
            (#[trigger] rest[i]).folder,
            folder,
            rules,
        ) by {
            assert(!same_place(bindings[i + 1].folder, folder, rules));
        }
        lemma_unbound(rest, folder, rules);
    }
}

proof fn lemma_workspace_of_push(
    bindings: Seq<FolderBindingV>,
    last: FolderBindingV,
    folder: Seq<u8>,
    rules: PathRules,
)
    ensures
        workspace_of(bindings.push(last), folder, rules) == match workspace_of(bindings, folder, rules) {
            Some(workspace) => Some(workspace),
            None => if same_place(last.folder, folder, rules) {
                Some(last.workspace_id)
            } else {
                None
            },
        },
    decreases bindings.len(),
{
    reveal_with_fuel(workspace_of, 2);
    let all = bindings.push(last);
    if bindings.len() == 0 {
        assert(all.drop_first() =~= Seq::<FolderBindingV>::empty());
    } else {
        assert(all.drop_first() =~= bindings.drop_first().push(last));
        lemma_workspace_of_push(bindings.drop_first(), last, folder, rules);
    }
}

proof fn lemma_other_folders_kept(bindings: Seq<FolderBindingV>, gone: Seq<u8>, folder: Seq<u8>, rules: PathRules)
    requires
        !same_place(gone, folder, rules),
    ensures
        workspace_of(without_folder(bindings, gone, rules), folder, rules) == workspace_of(bindings, folder, rules),
    decreases bindings.len(),
{
    if bindings.len() > 0 {
        let before = bindings.drop_last();
        lemma_other_folders_kept(before, gone, folder, rules);
        assert(before.push(bindings.last()) =~= bindings);
        lemma_workspace_of_push(before, bindings.last(), folder, rules);
        lemma_workspace_of_push(without_folder(before, gone, rules), bindings.last(), folder, rules);
    }
}

/// Binding a folder leaves what every other folder is bound to.
pub proof fn lemma_recording_leaves_other_folders(
    bindings: Seq<FolderBindingV>,
    added: FolderBindingV,
    folder: Seq<u8>,
    rules: PathRules,
)
    requires
        !same_place(added.folder, folder, rules),
    ensures
        workspace_of(with_binding(bindings, added, rules), folder, rules) == workspace_of(bindings, folder, rules),
{
    lemma_other_folders_kept(bindings, added.folder, folder, rules);
    lemma_workspace_of_push(without_folder(bindings, added.folder, rules), added, folder, rules);
}

} // verus!
