//! Key bindings.

use crate::config::keys::{binding_spelled, bound, chord_of, configured_keys, default_keys, extended, lemma_rebound, rebound, Binding, BindingMode, KeyChord, KeysConfigV, Layer, RawKeysConfigV};
use crate::keyboard::{KeyCode, KeyEvent};
use crate::text::{ascii_letter, ascii_lowered, ascii_raised};
use vstd::prelude::*;

verus! {

/// Whether an entry of the configuration binds a key.
pub open spec fn spells(layer: Layer, entry: (Seq<char>, Seq<char>), chord: KeyChord) -> bool {
    meant(layer, entry) matches Some(binding) && binding.chord == chord
}

/// What an entry of the configuration binds, if it is good.
pub open spec fn meant(layer: Layer, entry: (Seq<char>, Seq<char>)) -> Option<Binding> {
    match binding_spelled(layer, entry.0, entry.1) {
        Ok(binding) => Some(binding),
        Err(_) => None,
    }
}

spec fn all_bound(bindings: Seq<Binding>, meant: Seq<Option<Binding>>) -> Option<Seq<Binding>>
    decreases meant.len(),
{
    if meant.len() == 0 {
        Some(bindings)
    } else {
        match (all_bound(bindings, meant.drop_last()), meant.last()) {
            (Some(before), Some(binding)) => Some(rebound(before, binding)),
            _ => None,
        }
    }
}

proof fn lemma_extended_binds_all(
    layer: Layer,
    bindings: Seq<Binding>,
    raw: Seq<(Seq<char>, Seq<char>)>,
    all: Seq<Option<Binding>>,
)
    requires
        all.len() == raw.len(),
        forall|i: int| 0 <= i < raw.len() ==> #[trigger] all[i] == meant(layer, raw[i]),
    ensures
        extended(layer, bindings, raw) is Ok <==> all_bound(bindings, all) is Some,
        extended(layer, bindings, raw) is Ok ==> all_bound(bindings, all) == Some(
            extended(layer, bindings, raw)->Ok_0,
        ),
    decreases raw.len(),
{
    if raw.len() > 0 {
        lemma_extended_binds_all(layer, bindings, raw.drop_last(), all.drop_last());
        assert(all[raw.len() - 1] == meant(layer, raw.last()));
    }
}

spec fn binds(entry: Option<Binding>, chord: KeyChord) -> bool {
    entry is Some && entry->0.chord == chord
}

proof fn lemma_bound_where_all_are_good(bindings: Seq<Binding>, all: Seq<Option<Binding>>)
    ensures
        all_bound(bindings, all) is Some <==> forall|i: int|
            0 <= i < all.len() ==> (#[trigger] all[i]) is Some,
    decreases all.len(),
{
    if all.len() > 0 {
        let before = all.drop_last();
        lemma_bound_where_all_are_good(bindings, before);
        if all_bound(bindings, all) is Some {
            assert forall|i: int| 0 <= i < all.len() implies (#[trigger] all[i]) is Some by {
                if i < before.len() {
                    assert(before[i] is Some);
                }
            }
        } else if forall|i: int| 0 <= i < all.len() ==> (#[trigger] all[i]) is Some {
            assert forall|i: int| 0 <= i < before.len() implies (#[trigger] before[i]) is Some by {
                assert(all[i] is Some);
            }
            assert(all[all.len() - 1] is Some);
        }
    }
}

proof fn lemma_last_binding_counts(
    bindings: Seq<Binding>,
    all: Seq<Option<Binding>>,
    chord: KeyChord,
    at: int,
)
    requires
        all_bound(bindings, all) is Some,
        -1 <= at < all.len(),
        at >= 0 ==> binds(all[at], chord),
        forall|j: int| at < j < all.len() ==> !binds(#[trigger] all[j], chord),
    ensures
        bound(all_bound(bindings, all)->0, chord) == if at < 0 {
            bound(bindings, chord)
        } else {
            Some(all[at]->0.command)
        },
    decreases all.len(),
{
    if all.len() > 0 {
        let before = all.drop_last();
        lemma_rebound(all_bound(bindings, before)->0, all.last()->0, chord);
        if at < before.len() {
            assert(!binds(all[all.len() - 1], chord));
            assert forall|j: int| at < j < before.len() implies !binds(
                #[trigger] before[j],
                chord,
            ) by {
                assert(!binds(all[j], chord));
            }
            lemma_last_binding_counts(bindings, before, chord, at);
        }
    }
}

/// A configuration of keys is taken exactly where every entry of it is good.
pub proof fn lemma_good_keys_are_taken(
    layer: Layer,
    bindings: Seq<Binding>,
    raw: Seq<(Seq<char>, Seq<char>)>,
)
    ensures
        extended(layer, bindings, raw) is Ok <==> forall|i: int|
            0 <= i < raw.len() ==> meant(layer, #[trigger] raw[i]) is Some,
{
    let all = raw.map_values(|entry: (Seq<char>, Seq<char>)| meant(layer, entry));
    lemma_extended_binds_all(layer, bindings, raw, all);
    lemma_bound_where_all_are_good(bindings, all);
    if forall|i: int| 0 <= i < raw.len() ==> meant(layer, #[trigger] raw[i]) is Some {
        assert forall|i: int| 0 <= i < all.len() implies (#[trigger] all[i]) is Some by {
            assert(meant(layer, raw[i]) is Some);
        }
    }
    if all_bound(bindings, all) is Some {
        assert forall|i: int| 0 <= i < raw.len() implies meant(
            layer,
            #[trigger] raw[i],
        ) is Some by {
            assert(all[i] is Some);
        }
    }
}

/// Of the entries of a configuration that bind a key the last one counts; a key that none of
/// them binds, where `at` is -1, keeps what it does without them.
pub proof fn lemma_configured_keys_take_effect(
    layer: Layer,
    bindings: Seq<Binding>,
    raw: Seq<(Seq<char>, Seq<char>)>,
    chord: KeyChord,
    at: int,
)
    requires
        extended(layer, bindings, raw) is Ok,
        -1 <= at < raw.len(),
        at >= 0 ==> spells(layer, raw[at], chord),
        forall|j: int| at < j < raw.len() ==> !spells(layer, #[trigger] raw[j], chord),
    ensures
        bound(extended(layer, bindings, raw)->Ok_0, chord) == if at < 0 {
            bound(bindings, chord)
        } else {
            Some(meant(layer, raw[at])->0.command)
        },
{
    let all = raw.map_values(|entry: (Seq<char>, Seq<char>)| meant(layer, entry));
    lemma_extended_binds_all(layer, bindings, raw, all);
    assert forall|j: int| at < j < all.len() implies !binds(#[trigger] all[j], chord) by {
        assert(!spells(layer, raw[j], chord));
    }
    lemma_last_binding_counts(bindings, all, chord, at);
}

/// Each section of the configuration extends its own layer of the keys that hold without it.
pub proof fn lemma_sections_extend_their_layers(raw: RawKeysConfigV)
    ensures
        configured_keys(raw) matches Ok(keys) ==> {
            let base = default_keys();
            &&& extended(Layer::General, base.general, raw.general) == Ok::<Seq<Binding>, Seq<char>>(
                keys.general,
            )
            &&& extended(Layer::TextEdit, base.text_edit, raw.text_edit) == Ok::<
                Seq<Binding>,
                Seq<char>,
            >(keys.text_edit)
            &&& extended(Layer::ListNavigation, base.list_navigation, raw.list_navigation) == Ok::<
                Seq<Binding>,
                Seq<char>,
            >(keys.list_navigation)
            &&& extended(Layer::Modal, base.modal, raw.modal) == Ok::<Seq<Binding>, Seq<char>>(
                keys.modal,
            )
            &&& extended(Layer::RepoSelect, base.repo_select, raw.repo_select) == Ok::<
                Seq<Binding>,
                Seq<char>,
            >(keys.repo_select)
            &&& extended(Layer::BranchSelect, base.branch_select, raw.branch_select) == Ok::<
                Seq<Binding>,
                Seq<char>,
            >(keys.branch_select)
        },
{
}

/// What a key does on a screen: what its own layer says, else what is said for lists, for texts
/// and for everything, in this order; on a dialog there is neither a list nor a text.
pub proof fn lemma_own_layer_comes_first(keys: KeysConfigV, chord: KeyChord)
    ensures
        bound(keys.repo_select, chord) matches Some(command) ==> keys.command(
            BindingMode::Repo,
            chord,
        ) == Some(command),
        bound(keys.branch_select, chord) matches Some(command) ==> keys.command(
            BindingMode::Branch,
            chord,
        ) == Some(command),
        bound(keys.modal, chord) matches Some(command) ==> keys.command(BindingMode::Modal, chord)
            == Some(command) && keys.command(BindingMode::BaseBranch, chord) == Some(command),
        bound(keys.repo_select, chord) is None && bound(keys.list_navigation, chord) is Some
            ==> keys.command(BindingMode::Repo, chord) == bound(keys.list_navigation, chord),
        bound(keys.branch_select, chord) is None && bound(keys.list_navigation, chord) is Some
            ==> keys.command(BindingMode::Branch, chord) == bound(keys.list_navigation, chord),
        bound(keys.branch_select, chord) is None && bound(keys.list_navigation, chord) is None
            && bound(keys.text_edit, chord) is Some ==> keys.command(BindingMode::Branch, chord)
            == bound(keys.text_edit, chord),
        bound(keys.repo_select, chord) is None && bound(keys.list_navigation, chord) is None
            && bound(keys.text_edit, chord) is Some ==> keys.command(BindingMode::Repo, chord)
            == bound(keys.text_edit, chord),
        bound(keys.modal, chord) is None ==> keys.command(BindingMode::Modal, chord) == bound(
            keys.general,
            chord,
        ),
        bound(keys.repo_select, chord) is None && bound(keys.list_navigation, chord) is None
            && bound(keys.text_edit, chord) is None ==> keys.command(BindingMode::Repo, chord)
            == bound(keys.general, chord),
        bound(keys.branch_select, chord) is None && bound(keys.list_navigation, chord) is None
            && bound(keys.text_edit, chord) is None ==> keys.command(BindingMode::Branch, chord)
            == bound(keys.general, chord),
{
}

/// A pressed letter is taken in lower case, and in upper case with shift, whatever the terminal
/// reports; shift says nothing more of another character; and a tab backwards is a tab with
/// shift. The other modifiers stay.
pub proof fn lemma_pressed_keys_have_one_spelling(event: KeyEvent, c: char)
    ensures
        ({
            let chord = chord_of(event);
            &&& chord.modifiers.control == event.modifiers.control
            &&& chord.modifiers.alt == event.modifiers.alt
            &&& event.code == KeyCode::Char(c) && ascii_letter(c) && event.modifiers.shift
                ==> chord.code == KeyCode::Char(ascii_raised(c)) && chord.modifiers.shift
            &&& event.code == KeyCode::Char(c) && ascii_letter(c) && !event.modifiers.shift
                ==> chord.code == KeyCode::Char(ascii_lowered(c)) && !chord.modifiers.shift
            &&& event.code == KeyCode::Char(c) && !ascii_letter(c) ==> chord.code == KeyCode::Char(
                c,
            ) && !chord.modifiers.shift
            &&& event.code is BackTab ==> chord.code is Tab && chord.modifiers.shift
            &&& !(event.code is Char) && !(event.code is BackTab) ==> chord.code == event.code
                && chord.modifiers == event.modifiers
        }),
{
}

} // verus!
