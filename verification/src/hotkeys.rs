//! Global hotkeys: the validation rules every saved config obeys, and the
//! registration set handed to the OS (the narrow `RegisterHotKey` kind of
//! API: the OS reports only the combos registered here).

pub mod combo;

use std::collections::{HashMap, HashSet};
use vstd::prelude::*;
use vstd::string::*;

use crate::config::{is_unbound, Config, Snippet, SnippetView};
use crate::error::AppError;
use crate::text::{decimal, is_blank_str, push_decimal};
use self::combo::{parse_hotkey, OsCall, OsListener};
pub use self::combo::ParsedHotKey;

verus! {

broadcast use vstd::std_specs::hash::group_hash_axioms;

/// The id global-hotkey gives the combo that `text` parses to (`None` when
/// `text` is not a combo `HotKey::from_str` accepts). The id is computed from
/// the parsed modifiers and key alone, so it depends on the text only.
pub uninterp spec fn combo_id(text: Seq<char>) -> Option<u32>;

/// Parses one combo text; `None` when global-hotkey rejects it.
pub fn parse_combo(text: &str) -> (r: Option<ParsedHotKey>)
    ensures
        r is Some <==> combo_id(text@) is Some,
        r matches Some(p) ==> combo_id(text@) == Some(p.combo()),
{
    parse_hotkey(text)
}

/// A snippet that will hold an OS registration: active, bound, and with a
/// combo that parses.
pub open spec fn claims(s: SnippetView) -> bool {
    s.active && !is_unbound(s) && combo_id(s.hotkey) is Some
}

/// Snippet `i` breaks a rule: it is bound but its combo does not parse
/// (active or not: garbage never reaches disk), or it is active and its
/// combo is already claimed by an earlier active snippet. Inactive snippets
/// may share a combo with anyone.
pub open spec fn violates_at(snips: Seq<SnippetView>, i: int) -> bool {
    let s = snips[i];
    !is_unbound(s) && (combo_id(s.hotkey) is None || (s.active && exists|j: int|
        0 <= j < i && claims(#[trigger] snips[j]) && combo_id(snips[j].hotkey) == combo_id(
            s.hotkey,
        )))
}

/// The whole list obeys the rules.
pub open spec fn all_valid(snips: Seq<SnippetView>) -> bool {
    forall|i: int| 0 <= i < snips.len() ==> !violates_at(snips, i)
}

/// `i` is the first snippet that breaks a rule.
pub open spec fn first_violation(snips: Seq<SnippetView>, i: int) -> bool {
    &&& 0 <= i < snips.len()
    &&& violates_at(snips, i)
    &&& forall|j: int| 0 <= j < i ==> !violates_at(snips, j)
}

/// The registration set of the first `n` snippets: (combo id, snippet
/// index) of every claiming snippet, in order.
pub open spec fn registration_upto(snips: Seq<SnippetView>, n: int) -> Seq<(u32, int)>
    decreases n,
{
    if n <= 0 {
        seq![]
    } else {
        let prev = registration_upto(snips, n - 1);
        if claims(snips[n - 1]) {
            prev.push((combo_id(snips[n - 1].hotkey).unwrap(), n - 1))
        } else {
            prev
        }
    }
}

pub open spec fn registration(snips: Seq<SnippetView>) -> Seq<(u32, int)> {
    registration_upto(snips, snips.len() as int)
}

/// The error text for the snippet that breaks a rule (1-based row number).
pub open spec fn rejection_message(snips: Seq<SnippetView>, i: int) -> Seq<char> {
    let s = snips[i];
    if combo_id(s.hotkey) is None {
        "bad hotkey '"@ + s.hotkey + "' on snippet "@ + decimal((i + 1) as nat)
    } else {
        "duplicate active hotkey '"@ + s.hotkey + "'"@
    }
}

/// Ids of a registration set.
pub open spec fn ids_of(reg: Seq<(u32, int)>) -> Seq<u32> {
    reg.map_values(|e: (u32, int)| e.0)
}

/// The id-to-row map a registration set produces.
pub open spec fn map_matches(m: Map<u32, usize>, reg: Seq<(u32, int)>) -> bool {
    &&& forall|id: u32|
        m.contains_key(id) <==> exists|k: int| 0 <= k < reg.len() && (#[trigger] reg[k]).0 == id
    &&& forall|k: int| 0 <= k < reg.len() ==> m[(#[trigger] reg[k]).0] as int == reg[k].1
}

/// What the registration set says of each entry: it names an earlier
/// claiming snippet and carries that snippet's id; and every claiming
/// snippet among the first `n` appears.
pub proof fn lemma_registration_members(snips: Seq<SnippetView>, n: int)
    requires
        0 <= n <= snips.len(),
    ensures
        forall|k: int|
            0 <= k < registration_upto(snips, n).len() ==> {
                let e = #[trigger] registration_upto(snips, n)[k];
                &&& 0 <= e.1 < n
                &&& claims(snips[e.1])
                &&& combo_id(snips[e.1].hotkey) == Some(e.0)
            },
        forall|j: int|
            0 <= j < n && claims(#[trigger] snips[j]) ==> exists|k: int|
                0 <= k < registration_upto(snips, n).len() && registration_upto(snips, n)[k].1 == j,
        forall|a: int, b: int|
            0 <= a < b < registration_upto(snips, n).len() ==> (#[trigger] registration_upto(
                snips,
                n,
            )[a]).1 < (#[trigger] registration_upto(snips, n)[b]).1,
    decreases n,
{
    if n > 0 {
        lemma_registration_members(snips, n - 1);
        let prev = registration_upto(snips, n - 1);
        let cur = registration_upto(snips, n);
        if claims(snips[n - 1]) {
            assert(cur == prev.push((combo_id(snips[n - 1].hotkey).unwrap(), n - 1)));
            assert forall|j: int| 0 <= j < n && claims(#[trigger] snips[j]) implies exists|k: int|
                0 <= k < cur.len() && cur[k].1 == j by {
                if j == n - 1 {
                    assert(cur[prev.len() as int].1 == j);
                } else {
                    let k = choose|k: int| 0 <= k < prev.len() && prev[k].1 == j;
                    assert(cur[k] == prev[k]);
                }
            }
        } else {
            assert(cur == prev);
        }
    }
}

/// In a valid list no two claiming snippets share a combo id, so the
/// registration set has pairwise distinct ids.
pub proof fn lemma_valid_ids_distinct(snips: Seq<SnippetView>)
    requires
        all_valid(snips),
    ensures
        forall|a: int, b: int|
            0 <= a < b < registration(snips).len() ==> (#[trigger] registration(snips)[a]).0
                != (#[trigger] registration(snips)[b]).0,
{
    let n = snips.len() as int;
    lemma_registration_members(snips, n);
    let reg = registration(snips);
    assert forall|a: int, b: int| 0 <= a < b < reg.len() implies (#[trigger] reg[a]).0
        != (#[trigger] reg[b]).0 by {
        let i = reg[a].1;
        let j = reg[b].1;
        assert(i < j);
        assert(!violates_at(snips, j));
        assert(claims(snips[i]));
    }
}

/// What validity means, row by row: a list is valid exactly when every
/// bound combo parses and no two active bound snippets share a combo id.
/// Inactive snippets take no part in the duplicate check, whether they sit
/// above or below a live twin.
pub proof fn law_valid_means_no_active_twins(snips: Seq<SnippetView>)
    ensures
        all_valid(snips) <==> ((forall|i: int|
            0 <= i < snips.len() && !is_unbound(#[trigger] snips[i]) ==> combo_id(snips[i].hotkey) is Some)
            && (forall|i: int, j: int|
            0 <= i < j < snips.len() && (#[trigger] snips[i]).active && (#[trigger] snips[j]).active
                && !is_unbound(snips[i]) && !is_unbound(snips[j]) ==> combo_id(snips[i].hotkey)
                != combo_id(snips[j].hotkey))),
{
    if all_valid(snips) {
        assert forall|i: int, j: int|
            0 <= i < j < snips.len() && (#[trigger] snips[i]).active && (#[trigger] snips[j]).active
                && !is_unbound(snips[i]) && !is_unbound(snips[j]) implies combo_id(snips[i].hotkey)
            != combo_id(snips[j].hotkey) by {
            assert(!violates_at(snips, i));
            assert(!violates_at(snips, j));
            assert(claims(snips[i]));
        }
        assert forall|i: int|
            0 <= i < snips.len() && !is_unbound(#[trigger] snips[i]) implies combo_id(
            snips[i].hotkey,
        ) is Some by {
            assert(!violates_at(snips, i));
        }
    }
    if (forall|i: int|
        0 <= i < snips.len() && !is_unbound(#[trigger] snips[i]) ==> combo_id(snips[i].hotkey) is Some)
        && (forall|i: int, j: int|
        0 <= i < j < snips.len() && (#[trigger] snips[i]).active && (#[trigger] snips[j]).active
            && !is_unbound(snips[i]) && !is_unbound(snips[j]) ==> combo_id(snips[i].hotkey)
            != combo_id(snips[j].hotkey)) {
        assert forall|i: int| 0 <= i < snips.len() implies !violates_at(snips, i) by {
            if violates_at(snips, i) {
                if combo_id(snips[i].hotkey) is Some {
                    let j = choose|j: int|
                        0 <= j < i && claims(#[trigger] snips[j]) && combo_id(snips[j].hotkey)
                            == combo_id(snips[i].hotkey);
                    assert(snips[j].active && snips[i].active);
                    assert(false);
                }
            }
        }
    }
}

/// Switching a snippet off never turns a valid list invalid.
pub proof fn law_switching_off_keeps_valid(snips: Seq<SnippetView>, k: int)
    requires
        all_valid(snips),
        0 <= k < snips.len(),
    ensures
        all_valid(snips.update(k, SnippetView { active: false, ..snips[k] })),
{
    let t = snips.update(k, SnippetView { active: false, ..snips[k] });
    law_valid_means_no_active_twins(snips);
    law_valid_means_no_active_twins(t);
    assert forall|i: int|
        0 <= i < t.len() && !is_unbound(#[trigger] t[i]) implies combo_id(t[i].hotkey) is Some by {
        assert(t[i].hotkey == snips[i].hotkey);
        assert(!is_unbound(snips[i]));
    }
    assert forall|i: int, j: int|
        0 <= i < j < t.len() && (#[trigger] t[i]).active && (#[trigger] t[j]).active && !is_unbound(
            t[i],
        ) && !is_unbound(t[j]) implies combo_id(t[i].hotkey) != combo_id(t[j].hotkey) by {
        assert(i != k && j != k);
        assert(t[i] == snips[i] && t[j] == snips[j]);
        assert(snips[i].active && snips[j].active);
    }
}

/// Shared validation and registration-set builder. No side effects: the
/// settings UI calls it on drafts, and it is the first pass of
/// `Hotkeys::register_all`. Rules:
/// - empty (or white-space) hotkey = an unbound snippet: always fine, never registered
/// - non-empty hotkeys must parse, active or not
/// - duplicates are only rejected among active snippets
/// - the returned set is what actually registers: active snippets with valid keys
pub fn parse_all(config: &Config) -> (r: Result<Vec<(ParsedHotKey, usize)>, AppError>)
    ensures
        r is Ok <==> all_valid(config@.snippets),
        r matches Ok(v) ==> {
            let reg = registration(config@.snippets);
            &&& v@.len() == reg.len()
            &&& forall|k: int|
                0 <= k < v@.len() ==> (#[trigger] v@[k]).0.combo() == reg[k].0 && v@[k].1 as int
                    == reg[k].1
        },
        r matches Err(e) ==> exists|i: int|
            first_violation(config@.snippets, i) && (e matches AppError::Config(m) && m@
                == rejection_message(config@.snippets, i)),
{
    let ghost snips = config@.snippets;
    let n: usize = config.snippets.len();
    let mut parsed: Vec<(ParsedHotKey, usize)> = Vec::new();
    let mut seen: HashSet<u32> = HashSet::new();
    let mut i: usize = 0;
    while i < n
        invariant
            snips == config@.snippets,
            n == snips.len(),
            0 <= i <= n,
            forall|j: int| 0 <= j < i ==> !violates_at(snips, j),
            parsed@.len() == registration_upto(snips, i as int).len(),
            forall|k: int|
                0 <= k < parsed@.len() ==> (#[trigger] parsed@[k]).0.combo() == registration_upto(
                    snips,
                    i as int,
                )[k].0 && parsed@[k].1 as int == registration_upto(snips, i as int)[k].1,
            forall|id: u32|
                seen@.contains(id) <==> exists|k: int|
                    0 <= k < parsed@.len() && (#[trigger] parsed@[k]).0.combo() == id,
        decreases n - i,
    {
        proof {
            lemma_registration_members(snips, i as int);
        }
        let snippet: &Snippet = &config.snippets[i];
        assert(snippet@ == snips[i as int]);
        if is_blank_str(snippet.hotkey.as_str()) {
            // unbound
            assert(registration_upto(snips, i + 1) == registration_upto(snips, i as int));
            i = i + 1;
            continue;
        }
        let hotkey = match parse_hotkey(snippet.hotkey.as_str()) {
            Some(p) => p,
            None => {
                let mut m = String::from_str("bad hotkey '");
                m.append(snippet.hotkey.as_str());
                m.append("' on snippet ");
                push_decimal(&mut m, (i as u64) + 1);
                assert(first_violation(snips, i as int));
                return Err(AppError::Config(m));
            },
        };
        if !snippet.active {
            // parked: validated but not registered, exempt from the duplicate check
            assert(registration_upto(snips, i + 1) == registration_upto(snips, i as int));
            i = i + 1;
            continue;
        }
        // duplicate check against the combos already claimed
        let id: u32 = hotkey.id();
        let ghost seen_before = seen@;
        if !seen.insert(id) {
            proof {
                let reg = registration_upto(snips, i as int);
                assert(seen_before.contains(id));
                let k = choose|k: int| 0 <= k < parsed@.len() && (#[trigger] parsed@[k]).0.combo() == id;
                let j = reg[k].1;
                assert(reg[k].0 == id);
                assert(combo_id(snips[i as int].hotkey) == Some(id));
                assert(0 <= j < i && claims(snips[j]));
                assert(combo_id(snips[j].hotkey) == combo_id(snips[i as int].hotkey));
                assert(violates_at(snips, i as int));
                assert(first_violation(snips, i as int));
            }
            let mut m = String::from_str("duplicate active hotkey '");
            m.append(snippet.hotkey.as_str());
            m.append("'");
            return Err(AppError::Config(m));
        }
        proof {
            let reg = registration_upto(snips, i as int);
            assert(!seen_before.contains(id));
            assert forall|j: int|
                0 <= j < i && claims(#[trigger] snips[j]) implies combo_id(snips[j].hotkey)
                != combo_id(snips[i as int].hotkey) by {
                let q = choose|q: int| 0 <= q < reg.len() && reg[q].1 == j;
                assert(parsed@[q].0.combo() == reg[q].0);
                assert(combo_id(snips[i as int].hotkey) == Some(id));
            }
            assert(!violates_at(snips, i as int));
            assert(claims(snips[i as int]));
        }
        let ghost parsed_before = parsed@;
        parsed.push((hotkey, i));
        proof {
            assert forall|x: u32|
                seen@.contains(x) <==> exists|k: int|
                    0 <= k < parsed@.len() && (#[trigger] parsed@[k]).0.combo() == x by {
                if x == id {
                    assert(parsed@[parsed@.len() - 1].0.combo() == x);
                }
                if seen_before.contains(x) {
                    let k = choose|k: int|
                        0 <= k < parsed_before.len() && (#[trigger] parsed_before[k]).0.combo() == x;
                    assert(parsed@[k] == parsed_before[k]);
                }
                if exists|k: int| 0 <= k < parsed@.len() && (#[trigger] parsed@[k]).0.combo() == x {
                    let k = choose|k: int| 0 <= k < parsed@.len() && (#[trigger] parsed@[k]).0.combo() == x;
                    if k < parsed_before.len() {
                        assert(parsed_before[k] == parsed@[k]);
                    }
                }
            }
        }
        i = i + 1;
    }
    Ok(parsed)
}

/// Owns the OS-level registrations: keep it alive as long as the hotkeys
/// should work.
pub struct Hotkeys {
    listener: OsListener,
    /// What is currently registered with the OS: the set to release on the
    /// next `register_all`.
    registered: Vec<ParsedHotKey>,
}

/// Release calls for the given combo ids, in order.
pub open spec fn releases(ids: Seq<u32>) -> Seq<OsCall> {
    ids.map_values(|id: u32| OsCall::Release(id))
}

/// Register calls for the given combo ids, in order.
pub open spec fn registrations(ids: Seq<u32>) -> Seq<OsCall> {
    ids.map_values(|id: u32| OsCall::Register(id))
}

/// `after` released every combo `before` held, then asked the OS for each
/// combo of `reg` in order, made no other call, and now holds exactly those.
pub open spec fn swapped_in(before: Hotkeys, after: Hotkeys, reg: Seq<(u32, int)>) -> bool {
    &&& after.calls() == before.calls() + releases(before.registered_ids()) + registrations(
        ids_of(reg),
    )
    &&& after.registered_ids() == ids_of(reg)
}

/// Like `swapped_in`, but the OS refused the combo at position `c` of `reg`:
/// the combos before it are held, and nothing after it was asked for.
pub open spec fn swap_stopped_at(before: Hotkeys, after: Hotkeys, reg: Seq<(u32, int)>, c: int) -> bool {
    &&& 0 <= c < reg.len()
    &&& after.calls() == before.calls() + releases(before.registered_ids()) + registrations(
        ids_of(reg).take(c + 1),
    )
    &&& after.registered_ids() == ids_of(reg).take(c)
}

impl Hotkeys {
    /// Ids of the combos currently held.
    pub closed spec fn registered_ids(&self) -> Seq<u32> {
        self.registered@.map_values(|p: ParsedHotKey| p.combo())
    }

    /// Every call made to the OS, in order.
    pub closed spec fn calls(&self) -> Seq<OsCall> {
        self.listener.calls()
    }

    /// Starts the OS listener with nothing registered and nothing asked of
    /// it. Whether the OS grants the listener is not stated: it depends on
    /// the platform alone.
    pub fn new() -> (r: Result<Hotkeys, AppError>)
        ensures
            r matches Ok(h) ==> h.registered_ids() == Seq::<u32>::empty() && h.calls()
                == Seq::<OsCall>::empty(),
            r matches Err(e) ==> e is Hotkey,
    {
        match OsListener::start() {
            Ok(listener) => {
                let h = Hotkeys { listener, registered: Vec::new() };
                assert(h.registered_ids() =~= Seq::<u32>::empty());
                Ok(h)
            },
            Err(e) => Err(AppError::Hotkey(e)),
        }
    }

    /// Replaces the previous registration set, so first registration and
    /// reload are the same call. The whole config is validated before any
    /// existing registration is touched: a bad config returns `Err` while
    /// the old hotkeys are still live. Otherwise every held combo is released
    /// (failures ignored), then each combo of the new set is asked for in
    /// order; on success the map sends each registered combo's id to its
    /// snippet's row.
    pub fn register_all(&mut self, config: &Config) -> (r: Result<HashMap<u32, usize>, AppError>)
        ensures
            !all_valid(config@.snippets) ==> *final(self) == *old(self) && exists|i: int|
                first_violation(config@.snippets, i) && (r matches Err(AppError::Config(m))
                    && m@ == rejection_message(config@.snippets, i)),
            all_valid(config@.snippets) ==> match r {
                Ok(map) => {
                    &&& map_matches(map@, registration(config@.snippets))
                    &&& swapped_in(*old(self), *final(self), registration(config@.snippets))
                },
                Err(e) => {
                    &&& e is Hotkey
                    &&& exists|c: int|
                        #[trigger] swap_stopped_at(
                            *old(self),
                            *final(self),
                            registration(config@.snippets),
                            c,
                        )
                },
            },
    {
        // pass 1: parse and duplicate-check everything; no side effects
        let parsed = match parse_all(config) {
            Ok(p) => p,
            Err(e) => return Err(e),
        };
        let ghost reg = registration(config@.snippets);
        let ghost before = *self;
        proof {
            lemma_valid_ids_distinct(config@.snippets);
        }
        // pass 2: release the old set; individual failures are ignored so one
        // stuck key can't poison every future reload
        let mut old_set: Vec<ParsedHotKey> = Vec::new();
        std::mem::swap(&mut old_set, &mut self.registered);
        assert(old_set@.map_values(|p: ParsedHotKey| p.combo()) == before.registered_ids());
        let old_len: usize = old_set.len();
        let mut u: usize = 0;
        while u < old_len
            invariant
                before == *old(self),
                old_len == old_set@.len(),
                old_set@.map_values(|p: ParsedHotKey| p.combo()) == before.registered_ids(),
                0 <= u <= old_len,
                self.registered@.len() == 0,
                self.calls() == before.calls() + releases(before.registered_ids().take(u as int)),
            decreases old_len - u,
        {
            let _ = self.listener.release(&old_set[u]);
            assert(releases(before.registered_ids().take(u + 1)) =~= releases(
                before.registered_ids().take(u as int),
            ).push(OsCall::Release(old_set@[u as int].combo())));
            u = u + 1;
        }
        assert(before.registered_ids().take(old_len as int) =~= before.registered_ids());
        assert(registrations(ids_of(reg).take(0)) =~= Seq::<OsCall>::empty());
        // pass 3: register the new set; the map's key is the combo's id, the
        // same id the resident receives in hotkey events
        let mut map: HashMap<u32, usize> = HashMap::new();
        let count: usize = parsed.len();
        let mut k: usize = 0;
        while k < count
            invariant
                before == *old(self),
                count == parsed@.len(),
                count == reg.len(),
                all_valid(config@.snippets),
                reg == registration(config@.snippets),
                0 <= k <= count,
                forall|q: int|
                    0 <= q < parsed@.len() ==> (#[trigger] parsed@[q]).0.combo() == reg[q].0
                        && parsed@[q].1 as int == reg[q].1,
                forall|a: int, b: int|
                    0 <= a < b < reg.len() ==> (#[trigger] reg[a]).0 != (#[trigger] reg[b]).0,
                self.registered@.len() == k,
                forall|q: int| 0 <= q < k ==> (#[trigger] self.registered@[q]).combo() == reg[q].0,
                self.calls() == before.calls() + releases(before.registered_ids()) + registrations(
                    ids_of(reg).take(k as int),
                ),
                forall|id: u32|
                    map@.contains_key(id) <==> exists|q: int| 0 <= q < k && (#[trigger] reg[q]).0 == id,
                forall|q: int| 0 <= q < k ==> map@[(#[trigger] reg[q]).0] as int == reg[q].1,
            decreases count - k,
        {
            let entry = parsed[k];
            let ghost calls_before = self.calls();
            let outcome = self.listener.register(&entry.0);
            proof {
                let head = before.calls() + releases(before.registered_ids());
                assert(registrations(ids_of(reg).take(k + 1)) =~= registrations(
                    ids_of(reg).take(k as int),
                ).push(OsCall::Register(reg[k as int].0)));
                assert(head + registrations(ids_of(reg).take(k + 1)) =~= (head + registrations(
                    ids_of(reg).take(k as int),
                )).push(OsCall::Register(reg[k as int].0)));
            }
            match outcome {
                Ok(()) => {},
                Err(e) => {
                    assert(self.registered_ids() =~= ids_of(reg).take(k as int));
                    assert(swap_stopped_at(before, *self, reg, k as int));
                    return Err(AppError::Hotkey(e));
                },
            }
            self.registered.push(entry.0);
            map.insert(entry.0.id(), entry.1);
            proof {
                assert forall|id: u32|
                    map@.contains_key(id) <==> exists|q: int|
                        0 <= q < k + 1 && (#[trigger] reg[q]).0 == id by {
                    if id == reg[k as int].0 {
                        assert(reg[k as int].0 == id);
                    }
                }
                assert forall|q: int| 0 <= q < k + 1 implies map@[(#[trigger] reg[q]).0] as int
                    == reg[q].1 by {
                    if q < k {
                        assert(reg[q].0 != reg[k as int].0);
                    }
                }
            }
            k = k + 1;
        }
        assert(self.registered_ids() =~= ids_of(reg));
        assert(ids_of(reg).take(count as int) =~= ids_of(reg));
        Ok(map)
    }
}

/// Two maps that both match a registration set are the same map: reloading
/// an unchanged config binds every combo exactly as before.
pub proof fn law_registration_map_is_determined(
    m1: Map<u32, usize>,
    m2: Map<u32, usize>,
    reg: Seq<(u32, int)>,
)
    requires
        map_matches(m1, reg),
        map_matches(m2, reg),
    ensures
        m1 == m2,
{
    assert forall|id: u32| m1.contains_key(id) implies m1[id] == m2[id] by {
        let k = choose|k: int| 0 <= k < reg.len() && (#[trigger] reg[k]).0 == id;
        assert(m1[reg[k].0] as int == reg[k].1);
        assert(m2[reg[k].0] as int == reg[k].1);
    }
    assert(m1 =~= m2);
}

/// Registering the same set twice: the second swap releases exactly the
/// combos the first one left registered, asks for them again, makes no other
/// call, and ends holding the same combos.
pub proof fn law_reregistration_is_idempotent(
    h0: Hotkeys,
    h1: Hotkeys,
    h2: Hotkeys,
    reg: Seq<(u32, int)>,
)
    requires
        swapped_in(h0, h1, reg),
        swapped_in(h1, h2, reg),
    ensures
        h2.registered_ids() == h1.registered_ids(),
        h2.calls() == h1.calls() + releases(ids_of(reg)) + registrations(ids_of(reg)),
{
}

} // verus!
