//! The resident process's state: the config it serves and the map from
//! registered combo ids to snippet rows. Config and map change together or
//! not at all, so a hotkey event can never paste from a row the map does
//! not describe. The event loop, tray and clipboard live in the binary.

use std::collections::HashMap;
use vstd::prelude::*;

use crate::config::{Config, ConfigView, SnippetView};
use crate::error::AppError;
use crate::hotkeys::{
    all_valid, claims, combo_id, first_violation, lemma_registration_members, map_matches,
    registration, rejection_message, swap_stopped_at, swapped_in, Hotkeys,
};

verus! {

broadcast use vstd::std_specs::hash::group_hash_axioms;

/// What a registration attempt for `snips` did to the OS registrations:
/// the whole set swapped in, or swapped in up to the combo the OS refused.
pub open spec fn swap_outcome(
    before: Hotkeys,
    after: Hotkeys,
    snips: Seq<SnippetView>,
    succeeded: bool,
) -> bool {
    if succeeded {
        swapped_in(before, after, registration(snips))
    } else {
        exists|c: int| #[trigger] swap_stopped_at(before, after, registration(snips), c)
    }
}

/// Every bound row of the map is a claiming snippet of `snips` whose combo
/// id is the key, and every claiming snippet is bound under its combo id.
pub open spec fn bindings_agree(snips: Seq<SnippetView>, m: Map<u32, usize>) -> bool {
    &&& forall|id: u32|
        #[trigger] m.contains_key(id) ==> {
            &&& (m[id] as int) < snips.len()
            &&& claims(snips[m[id] as int])
            &&& combo_id(snips[m[id] as int].hotkey) == Some(id)
        }
    &&& forall|j: int|
        0 <= j < snips.len() && claims(#[trigger] snips[j]) ==> m.contains_key(
            combo_id(snips[j].hotkey).unwrap(),
        ) && m[combo_id(snips[j].hotkey).unwrap()] as int == j
}

/// A valid config's registration map agrees with its snippets.
pub proof fn lemma_registration_map_agrees(snips: Seq<SnippetView>, m: Map<u32, usize>)
    requires
        all_valid(snips),
        map_matches(m, registration(snips)),
    ensures
        bindings_agree(snips, m),
{
    let n = snips.len() as int;
    lemma_registration_members(snips, n);
    let reg = registration(snips);
    assert forall|id: u32| #[trigger] m.contains_key(id) implies {
        &&& (m[id] as int) < snips.len()
        &&& claims(snips[m[id] as int])
        &&& combo_id(snips[m[id] as int].hotkey) == Some(id)
    } by {
        let k = choose|k: int| 0 <= k < reg.len() && (#[trigger] reg[k]).0 == id;
        assert(m[reg[k].0] as int == reg[k].1);
    }
    assert forall|j: int| 0 <= j < snips.len() && claims(#[trigger] snips[j]) implies m.contains_key(
        combo_id(snips[j].hotkey).unwrap(),
    ) && m[combo_id(snips[j].hotkey).unwrap()] as int == j by {
        let k = choose|k: int| 0 <= k < reg.len() && reg[k].1 == j;
        assert(m[(#[trigger] reg[k]).0] as int == reg[k].1);
    }
}

pub struct Resident {
    config: Config,
    map: HashMap<u32, usize>,
}

impl Resident {
    #[verifier::type_invariant]
    spec fn wf(self) -> bool {
        &&& all_valid(self.config@.snippets)
        &&& map_matches(self.map@, registration(self.config@.snippets))
    }

    /// The config being served.
    pub closed spec fn config_view(&self) -> ConfigView {
        self.config@
    }

    /// Combo id to snippet row, for every registered combo.
    pub closed spec fn bindings(&self) -> Map<u32, usize> {
        self.map@
    }

    /// Registers `config`'s hotkeys and starts serving it.
    pub fn start(config: Config, hotkeys: &mut Hotkeys) -> (r: Result<Resident, AppError>)
        ensures
            r matches Ok(res) ==> res.config_view() == config@ && bindings_agree(
                config@.snippets,
                res.bindings(),
            ),
            r is Ok ==> all_valid(config@.snippets),
            r matches Err(e) ==> (e is Hotkey <==> all_valid(config@.snippets)),
            !all_valid(config@.snippets) ==> *final(hotkeys) == *old(hotkeys) && exists|i: int|
                first_violation(config@.snippets, i) && (r matches Err(AppError::Config(m)) && m@
                    == rejection_message(config@.snippets, i)),
            all_valid(config@.snippets) ==> swap_outcome(
                *old(hotkeys),
                *final(hotkeys),
                config@.snippets,
                r is Ok,
            ),
    {
        match hotkeys.register_all(&config) {
            Ok(map) => {
                proof {
                    lemma_registration_map_agrees(config@.snippets, map@);
                }
                Ok(Resident { config, map })
            },
            Err(e) => Err(e),
        }
    }

    /// The served config. It is always valid, and the bindings agree with it.
    pub fn config(&self) -> (r: &Config)
        ensures
            r@ == self.config_view(),
            all_valid(self.config_view().snippets),
            bindings_agree(self.config_view().snippets, self.bindings()),
    {
        proof {
            use_type_invariant(self);
            lemma_registration_map_agrees(self.config@.snippets, self.map@);
        }
        &self.config
    }

    /// The text to paste for a hotkey event: present only for a press of a
    /// registered combo, and then it is the text of the active snippet bound
    /// to that combo.
    pub fn snippet_for(&self, id: u32, pressed: bool) -> (r: Option<&String>)
        ensures
            r is Some <==> pressed && self.bindings().contains_key(id),
            r matches Some(t) ==> {
                let row = self.bindings()[id] as int;
                &&& 0 <= row < self.config_view().snippets.len()
                &&& t@ == self.config_view().snippets[row].text
                &&& claims(self.config_view().snippets[row])
                &&& combo_id(self.config_view().snippets[row].hotkey) == Some(id)
            },
    {
        proof {
            use_type_invariant(self);
            lemma_registration_map_agrees(self.config@.snippets, self.map@);
        }
        if !pressed {
            return None;
        }
        match self.map.get(&id) {
            Some(row) => {
                let row: usize = *row;
                if row < self.config.snippets.len() {
                    Some(&self.config.snippets[row].text)
                } else {
                    None
                }
            },
            None => None,
        }
    }

    /// Takes in a freshly read config. Unchanged content is skipped (no
    /// re-registration; `Ok(false)`). Otherwise the new config's hotkeys
    /// replace the old ones and config and map are swapped as a pair
    /// (`Ok(true)`). On any error the served config and map stay as they
    /// were; a config that fails validation leaves the OS registrations
    /// untouched too, so the old hotkeys keep working.
    pub fn reload(&mut self, hotkeys: &mut Hotkeys, new: Config) -> (r: Result<bool, AppError>)
        ensures
            new@ == old(self).config_view() ==> r == Ok::<bool, AppError>(false) && final(self).config_view()
                == old(self).config_view() && final(self).bindings() == old(self).bindings()
                && *final(hotkeys) == *old(hotkeys),
            new@ != old(self).config_view() ==> match r {
                Ok(changed) => {
                    &&& changed
                    &&& all_valid(new@.snippets)
                    &&& final(self).config_view() == new@
                    &&& bindings_agree(new@.snippets, final(self).bindings())
                },
                Err(_) => final(self).config_view() == old(self).config_view() && final(self).bindings()
                    == old(self).bindings(),
            },
            !all_valid(new@.snippets) ==> r is Err || new@ == old(self).config_view(),
            r matches Err(e) ==> (e is Hotkey <==> all_valid(new@.snippets)),
            !all_valid(new@.snippets) ==> *final(hotkeys) == *old(hotkeys),
            !all_valid(new@.snippets) && new@ != old(self).config_view() ==> exists|i: int|
                first_violation(new@.snippets, i) && (r matches Err(AppError::Config(m)) && m@
                    == rejection_message(new@.snippets, i)),
            all_valid(new@.snippets) && new@ != old(self).config_view() ==> swap_outcome(
                *old(hotkeys),
                *final(hotkeys),
                new@.snippets,
                r is Ok,
            ),
    {
        proof {
            use_type_invariant(&*self);
        }
        if new.same_as(&self.config) {
            return Ok(false);
        }
        match hotkeys.register_all(&new) {
            Ok(map) => {
                proof {
                    lemma_registration_map_agrees(new@.snippets, map@);
                }
                *self = Resident { config: new, map };
                Ok(true)
            },
            Err(e) => Err(e),
        }
    }
}

} // verus!
