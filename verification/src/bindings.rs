use vstd::prelude::*;
use crate::action::Action;

verus! {

/// One of the modifier keys.
#[derive(Clone, Copy, Debug, PartialEq, Eq, Structural)]
pub enum ModifierKey {
    Shift,
    Control,
    Alt,
    System,
}

/// The modifier keys that a binding asks for, or rules out.
#[derive(Clone, Copy, Debug, PartialEq, Eq, Structural)]
pub struct Modifiers {
    pub shift: bool,
    pub control: bool,
    pub alt: bool,
    pub system: bool,
}

impl Modifiers {
    /// No modifier.
    pub fn new() -> (r: Self)
        ensures
            r == (Modifiers { shift: false, control: false, alt: false, system: false }),
    {
        Modifiers { shift: false, control: false, alt: false, system: false }
    }

    /// `self` with `key` added.
    pub open spec fn with(self, key: ModifierKey) -> Modifiers {
        match key {
            ModifierKey::Shift => Modifiers { shift: true, ..self },
            ModifierKey::Control => Modifiers { control: true, ..self },
            ModifierKey::Alt => Modifiers { alt: true, ..self },
            ModifierKey::System => Modifiers { system: true, ..self },
        }
    }

    fn add(&mut self, key: ModifierKey)
        ensures
            *final(self) == old(self).with(key),
    {
        match key {
            ModifierKey::Shift => self.shift = true,
            ModifierKey::Control => self.control = true,
            ModifierKey::Alt => self.alt = true,
            ModifierKey::System => self.system = true,
        }
    }

    /// Each modifier of `self` is one of `held`.
    pub open spec fn all_held(self, held: Modifiers) -> bool {
        &&& self.shift ==> held.shift
        &&& self.control ==> held.control
        &&& self.alt ==> held.alt
        &&& self.system ==> held.system
    }

    /// No modifier of `self` is one of `held`.
    pub open spec fn none_held(self, held: Modifiers) -> bool {
        &&& !(self.shift && held.shift)
        &&& !(self.control && held.control)
        &&& !(self.alt && held.alt)
        &&& !(self.system && held.system)
    }
}

/// A key of a binding as the configuration names it: a modifier, or a key
/// that can trigger the binding, by its code.
#[derive(Clone, Copy, Debug, PartialEq, Eq, Structural)]
pub enum BindingKey {
    Modifier(ModifierKey),
    Trigger(u32),
}

/// A key binding: the key that triggers it, the modifiers it needs and the
/// modifiers it rules out.
#[derive(Clone, Copy, Debug, PartialEq, Eq, Structural)]
pub struct Binding {
    pub trigger: u32,
    pub included: Modifiers,
    pub excluded: Modifiers,
}

/// Why the keys of a binding make no binding.
#[derive(Clone, Copy, Debug, PartialEq, Eq, Structural)]
pub enum BindingError {
    /// A key that is no modifier is ruled out.
    ExcludedKey,
    /// No key triggers the binding.
    NoTrigger,
}

impl BindingError {
    /// What the configuration is told.
    pub fn message(&self) -> (r: &'static str)
        ensures
            r@ == match self {
                BindingError::ExcludedKey => "only modifiers can be excluded in bindings"@,
                BindingError::NoTrigger => "keybinding must have a trigger"@,
            },
    {
        match self {
            BindingError::ExcludedKey => "only modifiers can be excluded in bindings",
            BindingError::NoTrigger => "keybinding must have a trigger",
        }
    }
}

/// Key `i` of a binding's keys (each with whether it is written as ruled
/// out) is a key that is ruled out but is no modifier.
pub open spec fn excluded_key_at(keys: Seq<(BindingKey, bool)>, i: int) -> bool {
    0 <= i < keys.len() && keys[i].1 && keys[i].0 is Trigger
}

/// Key `i` can trigger the binding.
pub open spec fn trigger_at(keys: Seq<(BindingKey, bool)>, i: int) -> bool {
    0 <= i < keys.len() && !keys[i].1 && keys[i].0 is Trigger
}

/// Key `i` is the last one that can trigger the binding.
pub open spec fn last_trigger_at(keys: Seq<(BindingKey, bool)>, i: int) -> bool {
    trigger_at(keys, i) && forall|j: int| i < j < keys.len() ==> !#[trigger] trigger_at(keys, j)
}

/// One of the first `n` keys is modifier `key`, ruled out or not as `ruled_out` says.
pub open spec fn names_modifier(keys: Seq<(BindingKey, bool)>, n: int, key: ModifierKey, ruled_out: bool) -> bool {
    exists|i: int| 0 <= i < n && #[trigger] keys[i] == (BindingKey::Modifier(key), ruled_out)
}

/// The modifiers that the first `n` keys name, ruled out or not as `ruled_out` says.
pub open spec fn modifiers_named(keys: Seq<(BindingKey, bool)>, n: int, ruled_out: bool) -> Modifiers {
    Modifiers {
        shift: names_modifier(keys, n, ModifierKey::Shift, ruled_out),
        control: names_modifier(keys, n, ModifierKey::Control, ruled_out),
        alt: names_modifier(keys, n, ModifierKey::Alt, ruled_out),
        system: names_modifier(keys, n, ModifierKey::System, ruled_out),
    }
}

proof fn lemma_modifiers_step(keys: Seq<(BindingKey, bool)>, n: int, ruled_out: bool)
    requires
        0 <= n < keys.len(),
    ensures
        modifiers_named(keys, n + 1, ruled_out) == (match keys[n] {
            (BindingKey::Modifier(m), r) => if r == ruled_out {
                modifiers_named(keys, n, ruled_out).with(m)
            } else {
                modifiers_named(keys, n, ruled_out)
            },
            _ => modifiers_named(keys, n, ruled_out),
        }),
{
    let key = keys[n];
    assert forall|m: ModifierKey| names_modifier(keys, n + 1, m, ruled_out) <==> (names_modifier(keys, n, m, ruled_out)
        || key == (BindingKey::Modifier(m), ruled_out)) by {
        if names_modifier(keys, n + 1, m, ruled_out) {
            let i = choose|i: int| 0 <= i < n + 1 && #[trigger] keys[i] == (BindingKey::Modifier(m), ruled_out);
            if i < n {
                assert(names_modifier(keys, n, m, ruled_out));
            }
        }
        if key == (BindingKey::Modifier(m), ruled_out) {
            assert(keys[n] == (BindingKey::Modifier(m), ruled_out));
        }
        if names_modifier(keys, n, m, ruled_out) {
            let i = choose|i: int| 0 <= i < n && #[trigger] keys[i] == (BindingKey::Modifier(m), ruled_out);
            assert(keys[i] == (BindingKey::Modifier(m), ruled_out));
        }
    }
    assert(names_modifier(keys, n + 1, ModifierKey::Shift, ruled_out) <==> (names_modifier(keys, n, ModifierKey::Shift, ruled_out)
        || key == (BindingKey::Modifier(ModifierKey::Shift), ruled_out)));
    assert(names_modifier(keys, n + 1, ModifierKey::Control, ruled_out) <==> (names_modifier(keys, n, ModifierKey::Control, ruled_out)
        || key == (BindingKey::Modifier(ModifierKey::Control), ruled_out)));
    assert(names_modifier(keys, n + 1, ModifierKey::Alt, ruled_out) <==> (names_modifier(keys, n, ModifierKey::Alt, ruled_out)
        || key == (BindingKey::Modifier(ModifierKey::Alt), ruled_out)));
    assert(names_modifier(keys, n + 1, ModifierKey::System, ruled_out) <==> (names_modifier(keys, n, ModifierKey::System, ruled_out)
        || key == (BindingKey::Modifier(ModifierKey::System), ruled_out)));
}

impl Binding {
    /// The binding fires when `trigger` is pressed with the modifiers `held`:
    /// its trigger is that key, every modifier it asks for is held and none
    /// that it rules out.
    pub open spec fn fires_on(self, trigger: u32, held: Modifiers) -> bool {
        self.trigger == trigger && self.included.all_held(held) && self.excluded.none_held(held)
    }

    /// Whether the binding fires when `trigger` is pressed with the modifiers `held`.
    pub fn matches(&self, trigger: u32, held: Modifiers) -> (r: bool)
        ensures
            r == self.fires_on(trigger, held),
    {
        let asked = (!self.included.shift || held.shift) && (!self.included.control || held.control)
            && (!self.included.alt || held.alt) && (!self.included.system || held.system);
        let ruled_out = (self.excluded.shift && held.shift) || (self.excluded.control && held.control)
            || (self.excluded.alt && held.alt) || (self.excluded.system && held.system);
        self.trigger == trigger && asked && !ruled_out
    }

    /// The binding that `keys` write, each with whether it is written as a
    /// keyword, which rules it out. The last key that is no modifier and is
    /// not ruled out triggers it.
    pub fn from_keys(keys: &Vec<(BindingKey, bool)>) -> (r: Result<Binding, BindingError>)
        ensures
            (exists|i: int| excluded_key_at(keys@, i)) ==> r == Err::<Binding, BindingError>(BindingError::ExcludedKey),
            !(exists|i: int| excluded_key_at(keys@, i)) && !(exists|i: int| trigger_at(keys@, i)) ==> r == Err::<
                Binding,
                BindingError,
            >(BindingError::NoTrigger),
            !(exists|i: int| excluded_key_at(keys@, i)) && (exists|i: int| trigger_at(keys@, i)) ==> (r matches Ok(b) && b.included
                == modifiers_named(keys@, keys@.len() as int, false) && b.excluded == modifiers_named(
                keys@,
                keys@.len() as int,
                true,
            ) && exists|i: int| last_trigger_at(keys@, i) && keys@[i].0 == BindingKey::Trigger(b.trigger)),
    {
        let mut trigger: Option<u32> = None;
        let mut included = Modifiers::new();
        let mut excluded = Modifiers::new();
        let mut k: usize = 0;
        while k < keys.len()
            invariant
                k <= keys@.len(),
                forall|i: int| 0 <= i < k ==> !#[trigger] excluded_key_at(keys@, i),
                included == modifiers_named(keys@, k as int, false),
                excluded == modifiers_named(keys@, k as int, true),
                trigger is None ==> forall|i: int| 0 <= i < k ==> !#[trigger] trigger_at(keys@, i),
                trigger matches Some(t) ==> exists|i: int|
                    0 <= i < k && #[trigger] trigger_at(keys@, i) && keys@[i].0 == BindingKey::Trigger(t) && forall|j: int|
                        i < j < k ==> !#[trigger] trigger_at(keys@, j),
            decreases keys.len() - k,
        {
            let (key, ruled_out) = keys[k];
            proof {
                lemma_modifiers_step(keys@, k as int, false);
                lemma_modifiers_step(keys@, k as int, true);
            }
            match key {
                BindingKey::Modifier(m) => {
                    if ruled_out {
                        excluded.add(m);
                    } else {
                        included.add(m);
                    }
                },
                BindingKey::Trigger(code) => {
                    if ruled_out {
                        assert(excluded_key_at(keys@, k as int));
                        return Err(BindingError::ExcludedKey);
                    }
                    assert(trigger_at(keys@, k as int));
                    trigger = Some(code);
                },
            }
            k = k + 1;
        }
        match trigger {
            Some(code) => {
                let ghost i = choose|i: int|
                    0 <= i < k && #[trigger] trigger_at(keys@, i) && keys@[i].0 == BindingKey::Trigger(code) && forall|j: int|
                        i < j < k ==> !#[trigger] trigger_at(keys@, j);
                assert(last_trigger_at(keys@, i));
                Ok(Binding { trigger: code, included, excluded })
            },
            None => Err(BindingError::NoTrigger),
        }
    }
}

/// Where a binding of `length` keys goes among `bindings`: before the first
/// one that takes no more keys, or at the end.
pub open spec fn is_binding_slot(bindings: Seq<(Binding, usize, Action)>, length: usize, p: int) -> bool {
    &&& 0 <= p <= bindings.len()
    &&& forall|i: int| 0 <= i < p ==> (#[trigger] bindings[i]).1 > length
    &&& p < bindings.len() ==> bindings[p].1 <= length
}

/// Bindings that take more keys come first.
pub open spec fn longest_first(bindings: Seq<(Binding, usize, Action)>) -> bool {
    forall|i: int, j: int| 0 <= i < j < bindings.len() ==> (#[trigger] bindings[i]).1 >= (#[trigger] bindings[j]).1
}

/// The actions of the first `n` bindings that `matched` marks, each once, in
/// the order in which they first come.
pub open spec fn matching_actions(bindings: Seq<(Binding, usize, Action)>, matched: Seq<bool>, n: nat) -> Seq<Action>
    decreases n,
{
    if n == 0 {
        Seq::empty()
    } else {
        let before = matching_actions(bindings, matched, (n - 1) as nat);
        let action = bindings[n - 1].2;
        if matched[n - 1] && !before.contains(action) {
            before.push(action)
        } else {
            before
        }
    }
}

/// An action comes at most once among the matching actions, and it comes
/// where a marked binding names it.
pub proof fn lemma_matching_actions(bindings: Seq<(Binding, usize, Action)>, matched: Seq<bool>, n: nat)
    requires
        n <= bindings.len(),
        n <= matched.len(),
    ensures
        matching_actions(bindings, matched, n).no_duplicates(),
        forall|a: Action| #[trigger] matching_actions(bindings, matched, n).contains(a) <==> exists|i: int|
            0 <= i < n && matched[i] && bindings[i].2 == a,
    decreases n,
{
    if n > 0 {
        lemma_matching_actions(bindings, matched, (n - 1) as nat);
        let before = matching_actions(bindings, matched, (n - 1) as nat);
        let r = matching_actions(bindings, matched, n);
        assert forall|a: Action| #[trigger] r.contains(a) <==> exists|i: int| 0 <= i < n && matched[i] && bindings[i].2 == a by {
            if r.contains(a) && !before.contains(a) {
                assert(r == before.push(bindings[n - 1].2));
                let k = choose|k: int| 0 <= k < r.len() && r[k] == a;
                assert(k == before.len());
                assert(matched[n - 1] && bindings[n - 1].2 == a);
            }
            if exists|i: int| 0 <= i < n && matched[i] && bindings[i].2 == a {
                let i = choose|i: int| 0 <= i < n && matched[i] && bindings[i].2 == a;
                if i < n - 1 {
                    assert(before.contains(a));
                    let k = choose|k: int| 0 <= k < before.len() && before[k] == a;
                    assert(r[k] == a);
                } else if !before.contains(a) {
                    assert(r[before.len() as int] == a);
                } else {
                    let k = choose|k: int| 0 <= k < before.len() && before[k] == a;
                    assert(r[k] == a);
                }
            }
            if before.contains(a) {
                let k = choose|k: int| 0 <= k < before.len() && before[k] == a;
                assert(r[k] == a);
            }
        }
    }
}

fn contains_action(actions: &Vec<Action>, action: Action) -> (r: bool)
    ensures
        r == actions@.contains(action),
{
    let mut k: usize = 0;
    while k < actions.len()
        invariant
            k <= actions@.len(),
            forall|i: int| 0 <= i < k ==> actions@[i] != action,
        decreases actions.len() - k,
    {
        if actions[k] == action {
            assert(actions@[k as int] == action);
            return true;
        }
        k = k + 1;
    }
    false
}

/// Puts `entry` among `bindings` at its slot (see `is_binding_slot`).
pub fn insert_binding(bindings: &mut Vec<(Binding, usize, Action)>, entry: (Binding, usize, Action))
    ensures
        exists|p: int| is_binding_slot(old(bindings)@, entry.1, p) && final(bindings)@ == old(bindings)@.insert(p, entry),
        longest_first(old(bindings)@) ==> longest_first(final(bindings)@),
{
    let mut p: usize = 0;
    while p < bindings.len()
        invariant
            p <= bindings@.len(),
            bindings@ == old(bindings)@,
            forall|i: int| 0 <= i < p ==> (#[trigger] bindings@[i]).1 > entry.1,
        ensures
            p <= bindings@.len(),
            bindings@ == old(bindings)@,
            forall|i: int| 0 <= i < p ==> (#[trigger] bindings@[i]).1 > entry.1,
            p < bindings@.len() ==> bindings@[p as int].1 <= entry.1,
        decreases bindings.len() - p,
    {
        if bindings[p].1 <= entry.1 {
            break;
        }
        p = p + 1;
    }
    let ghost before = bindings@;
    bindings.insert(p, entry);
    proof {
        assert(is_binding_slot(before, entry.1, p as int));
        if longest_first(before) {
            assert forall|i: int, j: int| 0 <= i < j < bindings@.len() implies (#[trigger] bindings@[i]).1 >= (
            #[trigger] bindings@[j]).1 by {
                if j < p {
                } else if j == p {
                    assert(bindings@[i] == before[i]);
                } else if i == p {
                    assert(bindings@[j] == before[j - 1]);
                    assert(before[p as int].1 >= before[j - 1].1);
                } else if i < p {
                    assert(bindings@[j] == before[j - 1]);
                    assert(bindings@[i] == before[i]);
                } else {
                    assert(bindings@[j] == before[j - 1]);
                    assert(bindings@[i] == before[i - 1]);
                }
            }
        }
    }
}

/// The actions of the bindings that `matched` marks (one flag per binding,
/// whether it matches the key that was pressed), each once, in the order in
/// which the bindings come.
pub(crate) fn matching_bindings(bindings: &Vec<(Binding, usize, Action)>, matched: &Vec<bool>) -> (r: Vec<Action>)
    requires
        matched@.len() == bindings@.len(),
    ensures
        r@ == matching_actions(bindings@, matched@, bindings@.len()),
{
    let mut actions: Vec<Action> = Vec::new();
    let mut k: usize = 0;
    while k < bindings.len()
        invariant
            k <= bindings@.len(),
            matched@.len() == bindings@.len(),
            actions@ == matching_actions(bindings@, matched@, k as nat),
        decreases bindings.len() - k,
    {
        if matched[k] {
            let action = bindings[k].2;
            if !contains_action(&actions, action) {
                actions.push(action);
            }
        }
        k = k + 1;
    }
    actions
}

} // verus!
