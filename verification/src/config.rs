//! The table of key bindings: which input event calls for which command.
//!
//! The table is built once from a list of declarative entries. Each entry
//! names a chord and a command; the registry of commands, which is not part
//! of this library, has resolved the command beforehand. An entry whose
//! command is not resolved or whose chord names no event is passed over, and
//! of several entries for one and the same command only the first is bound.

use vstd::prelude::*;
use crate::command::{Command, CommandView};
use crate::event::{Event, EventView};
use crate::keys::{event_is, parse_chords, parse_keys};

verus! {

/// One binding: an event and the command that it calls for.
pub struct Binding {
    pub event: Event,
    pub command: Command,
}

/// The mathematical value of a [`Binding`].
pub struct BindingView {
    pub event: EventView,
    pub command: CommandView,
}

impl View for Binding {
    type V = BindingView;

    open spec fn view(&self) -> BindingView {
        BindingView { event: self.event@, command: self.command@ }
    }
}

/// The index of the first binding of an event; the number of bindings, if
/// there is none.
pub open spec fn index_of(bindings: Seq<BindingView>, event: EventView) -> nat
    decreases bindings.len(),
{
    if bindings.len() > 0 && bindings[0].event != event {
        1 + index_of(bindings.skip(1), event)
    } else {
        0
    }
}

/// The command that an event is bound to, if it is bound.
pub open spec fn binding_of(bindings: Seq<BindingView>, event: EventView) -> Option<CommandView> {
    let i = index_of(bindings, event);
    if i < bindings.len() {
        Some(bindings[i as int].command)
    } else {
        None
    }
}

/// The bindings with an event bound to a command: in the place of the event's
/// binding if it had one, else at the end.
pub open spec fn with_binding(
    bindings: Seq<BindingView>,
    event: EventView,
    command: CommandView,
) -> Seq<BindingView> {
    let i = index_of(bindings, event);
    if i < bindings.len() {
        bindings.update(i as int, BindingView { event, command })
    } else {
        bindings.push(BindingView { event, command })
    }
}

/// What [`index_of`] finds: no binding before it is of the event, and the
/// binding at it, if there is one, is.
pub proof fn lemma_index_of(bindings: Seq<BindingView>, event: EventView)
    ensures
        index_of(bindings, event) <= bindings.len(),
        forall|j: int| 0 <= j < index_of(bindings, event) ==> bindings[j].event != event,
        index_of(bindings, event) < bindings.len() ==> bindings[index_of(
            bindings,
            event,
        ) as int].event == event,
    decreases bindings.len(),
{
    if bindings.len() > 0 && bindings[0].event != event {
        let rest = bindings.skip(1);
        lemma_index_of(rest, event);
        let p = index_of(rest, event);
        assert forall|j: int| 0 <= j < p + 1 implies bindings[j].event != event by {
            if j > 0 {
                assert(bindings[j] == rest[j - 1]);
            }
        }
        if p + 1 < bindings.len() {
            assert(bindings[p as int + 1] == rest[p as int]);
        }
    }
}

/// The index that stands where [`index_of`] says is the index that it gives.
pub proof fn lemma_index_of_is(bindings: Seq<BindingView>, event: EventView, i: int)
    requires
        0 <= i <= bindings.len(),
        forall|j: int| 0 <= j < i ==> bindings[j].event != event,
        i < bindings.len() ==> bindings[i].event == event,
    ensures
        index_of(bindings, event) == i,
    decreases bindings.len(),
{
    if bindings.len() > 0 && bindings[0].event != event {
        let rest = bindings.skip(1);
        assert forall|j: int| 0 <= j < i - 1 implies rest[j].event != event by {
            assert(rest[j] == bindings[j + 1]);
        }
        if i - 1 < rest.len() {
            assert(rest[i - 1] == bindings[i]);
        }
        lemma_index_of_is(rest, event, i - 1);
    }
}

/// An event that has been bound to a command is bound to it, and the binding
/// of every other event is as it was.
pub proof fn law_binding_after_insert(
    bindings: Seq<BindingView>,
    event: EventView,
    command: CommandView,
    other: EventView,
)
    ensures
        binding_of(with_binding(bindings, event, command), event) == Some(command),
        other != event ==> binding_of(with_binding(bindings, event, command), other) == binding_of(
            bindings,
            other,
        ),
{
    lemma_index_of(bindings, event);
    lemma_index_of(bindings, other);
    let after = with_binding(bindings, event, command);
    let i = index_of(bindings, event) as int;
    lemma_index_of_is(after, event, i);
    if other != event {
        let k = index_of(bindings, other) as int;
        if k < bindings.len() {
            lemma_index_of_is(after, other, k);
        } else {
            lemma_index_of_is(after, other, after.len() as int);
        }
    }
}

/// Whether no event is bound twice.
pub open spec fn bound_once(bindings: Seq<BindingView>) -> bool {
    forall|i: int, j: int|
        0 <= i < j < bindings.len() ==> (#[trigger] bindings[i]).event != (#[trigger] bindings[j]).event
}

/// Binding an event keeps every event bound once.
pub proof fn law_binding_keeps_events_apart(
    bindings: Seq<BindingView>,
    event: EventView,
    command: CommandView,
)
    requires
        bound_once(bindings),
    ensures
        bound_once(with_binding(bindings, event, command)),
{
    lemma_index_of(bindings, event);
    let after = with_binding(bindings, event, command);
    let at = index_of(bindings, event) as int;
    assert forall|i: int, j: int| 0 <= i < j < after.len() implies (#[trigger] after[i]).event != (
    #[trigger] after[j]).event by {
        if at < bindings.len() {
            assert(after[i].event == bindings[i].event);
            assert(after[j].event == bindings[j].event);
        } else {
            if j < bindings.len() {
                assert(after[i] == bindings[i]);
                assert(after[j] == bindings[j]);
            } else {
                assert(after[i] == bindings[i]);
            }
        }
    }
}

/// The table that maps input events to commands. It keeps the bindings in
/// the order in which their events were first bound, and binds no event
/// twice.
pub struct KeyMap {
    entries: Vec<Binding>,
}

impl KeyMap {
    #[verifier::type_invariant]
    spec fn each_event_once(self) -> bool {
        bound_once(self.entries@.map_values(|b: Binding| b@))
    }

    /// The bindings, in the order in which their events were first bound.
    pub closed spec fn bindings(&self) -> Seq<BindingView> {
        self.entries@.map_values(|b: Binding| b@)
    }

    /// A table without bindings.
    pub fn new() -> (map: KeyMap)
        ensures
            map.bindings() == Seq::<BindingView>::empty(),
            bound_once(map.bindings()),
    {
        let map = KeyMap { entries: Vec::new() };
        assert(map.bindings() =~= Seq::<BindingView>::empty());
        map
    }

    /// The number of bindings. No event is bound twice.
    pub fn len(&self) -> (n: usize)
        ensures
            n == self.bindings().len(),
            bound_once(self.bindings()),
    {
        proof {
            use_type_invariant(self);
        }
        self.entries.len()
    }

    fn find(&self, event: &Event) -> (i: usize)
        ensures
            i == index_of(self.bindings(), event@),
            i <= self.entries@.len(),
    {
        let ghost all = self.bindings();
        let mut i: usize = 0;
        assert(all.skip(0) =~= all);
        while i < self.entries.len()
            invariant
                i <= self.entries.len(),
                all == self.bindings(),
                index_of(all, event@) == i + index_of(all.skip(i as int), event@),
            decreases self.entries.len() - i,
        {
            assert(all.skip(i as int)[0] == self.entries@[i as int]@);
            if self.entries[i].event.same(event) {
                return i;
            }
            assert(all.skip(i as int).skip(1) =~= all.skip(i + 1));
            i += 1;
        }
        i
    }

    /// The command that an event is bound to, if it is bound.
    pub fn get(&self, event: &Event) -> (r: Option<&Command>)
        ensures
            match r {
                Some(cmd) => binding_of(self.bindings(), event@) == Some(cmd@),
                None => binding_of(self.bindings(), event@) is None,
            },
    {
        let i = self.find(event);
        if i < self.entries.len() {
            assert(self.bindings()[i as int] == self.entries@[i as int]@);
            Some(&self.entries[i].command)
        } else {
            None
        }
    }

    /// Binds an event to a command. An event that was bound before is bound
    /// anew.
    pub fn insert(&mut self, event: Event, command: Command)
        ensures
            final(self).bindings() == with_binding(old(self).bindings(), event@, command@),
            bound_once(old(self).bindings()),
            bound_once(final(self).bindings()),
    {
        let i = self.find(&event);
        let ghost before = self.bindings();
        proof {
            use_type_invariant(&*self);
            law_binding_keeps_events_apart(before, event@, command@);
        }
        let binding = Binding { event, command };
        let mut entries: Vec<Binding> = Vec::new();
        assert(entries@.map_values(|b: Binding| b@) =~= Seq::<BindingView>::empty());
        core::mem::swap(&mut entries, &mut self.entries);
        if i < entries.len() {
            entries.push(binding);
            let last = entries.swap_remove(i);
            assert(entries@.map_values(|b: Binding| b@) =~= before.update(i as int, binding@));
        } else {
            entries.push(binding);
            assert(entries@.map_values(|b: Binding| b@) =~= before.push(binding@));
        }
        *self = KeyMap { entries };
    }
}

/// One declarative entry of the key bindings.
pub struct KeymapEntry {
    /// The chord, as a list of descriptors.
    pub keys: Vec<String>,
    /// The name of the command.
    pub command: String,
    /// The command that the registry of commands makes of the name and the
    /// arguments of the entry, if it makes one.
    pub resolved: Option<Command>,
}

/// The mathematical value of a [`KeymapEntry`], as far as the table depends
/// on it.
pub struct KeymapEntryView {
    pub keys: Seq<Seq<char>>,
    pub resolved: Option<CommandView>,
}

impl View for KeymapEntry {
    type V = KeymapEntryView;

    open spec fn view(&self) -> KeymapEntryView {
        KeymapEntryView {
            keys: self.keys@.map_values(|k: String| k@),
            resolved: match self.resolved {
                Some(cmd) => Some(cmd@),
                None => None,
            },
        }
    }
}

/// The mathematical values of a sequence of entries.
pub open spec fn entries_view(entries: Seq<KeymapEntry>) -> Seq<KeymapEntryView> {
    entries.map_values(|e: KeymapEntry| e@)
}

/// The table so far, and the commands that have a binding.
pub struct BoundView {
    pub keymap: Seq<BindingView>,
    pub found: Seq<CommandView>,
}

/// The table after one more entry. The entry is bound if its command is
/// resolved and has no binding yet, and its chord names an event.
pub open spec fn bound_step(state: BoundView, entry: KeymapEntryView) -> BoundView {
    match entry.resolved {
        None => state,
        Some(cmd) => if state.found.contains(cmd) {
            state
        } else {
            match parse_chords(entry.keys) {
                None => state,
                Some(event) => BoundView {
                    keymap: with_binding(state.keymap, event, cmd),
                    found: state.found.push(cmd),
                },
            }
        },
    }
}

/// The table after all the entries, in order.
pub open spec fn bound(entries: Seq<KeymapEntryView>) -> BoundView
    decreases entries.len(),
{
    if entries.len() == 0 {
        BoundView { keymap: Seq::empty(), found: Seq::empty() }
    } else {
        bound_step(bound(entries.drop_last()), entries.last())
    }
}

/// No command has two bindings made for it: the commands that have a binding
/// are all different.
pub proof fn law_first_binding_wins(entries: Seq<KeymapEntryView>)
    ensures
        bound(entries).found.no_duplicates(),
    decreases entries.len(),
{
    if entries.len() > 0 {
        law_first_binding_wins(entries.drop_last());
        let state = bound(entries.drop_last());
        let after = bound(entries);
        if after.found != state.found {
            let cmd = entries.last().resolved->0;
            assert(after.found == state.found.push(cmd));
            assert(!state.found.contains(cmd));
            assert forall|i: int, j: int|
                0 <= i < after.found.len() && 0 <= j < after.found.len() && i != j implies after.found[i]
                != after.found[j] by {
                if i < state.found.len() && j < state.found.len() {
                } else if i < state.found.len() {
                    assert(state.found.contains(state.found[i]));
                } else {
                    assert(state.found.contains(state.found[j]));
                }
            }
        }
    }
}

/// The key bindings in force.
pub struct KeybindingConfig {
    pub keymap: KeyMap,
    /// The commands that have a binding, in the order in which they were
    /// bound.
    pub found: Vec<Command>,
}

impl KeybindingConfig {
    /// The value of the configuration.
    pub open spec fn value(&self) -> BoundView {
        BoundView {
            keymap: self.keymap.bindings(),
            found: self.found@.map_values(|c: Command| c@),
        }
    }

    /// Builds the table from the entries, in order.
    pub fn parse(bindings: &Vec<KeymapEntry>) -> (config: KeybindingConfig)
        ensures
            config.value() == bound(entries_view(bindings@)),
    {
        let ghost all = entries_view(bindings@);
        let mut keymap = KeyMap::new();
        let mut found: Vec<Command> = Vec::new();
        let mut i: usize = 0;
        assert(all.take(0) =~= Seq::<KeymapEntryView>::empty());
        assert(found@.map_values(|c: Command| c@) =~= Seq::<CommandView>::empty());
        while i < bindings.len()
            invariant
                i <= bindings.len(),
                all == entries_view(bindings@),
                bound(all.take(i as int)) == (BoundView {
                    keymap: keymap.bindings(),
                    found: found@.map_values(|c: Command| c@),
                }),
            decreases bindings.len() - i,
        {
            let binding = &bindings[i];
            proof {
                assert(all.take(i + 1).drop_last() =~= all.take(i as int));
                assert(all.take(i + 1).last() == binding@);
            }
            let ghost found_before = found@.map_values(|c: Command| c@);
            match &binding.resolved {
                None => {},
                Some(cmd) => {
                    if !holds_command(&found, cmd) {
                        match KeybindingConfig::parse_keys(&binding.keys) {
                            Some(event) => {
                                let copy = cmd.duplicate();
                                let second = cmd.duplicate();
                                keymap.insert(event, copy);
                                found.push(second);
                                assert(found@.map_values(|c: Command| c@) =~= found_before.push(
                                    cmd@,
                                ));
                            },
                            None => {},
                        }
                    }
                },
            }
            i += 1;
        }
        assert(all.take(bindings.len() as int) =~= all);
        KeybindingConfig { keymap, found }
    }

    /// The event that a chord names: a chord of exactly one descriptor names
    /// what the descriptor names, any other chord names nothing.
    pub fn parse_keys(keys: &Vec<String>) -> (r: Option<Event>)
        ensures
            event_is(r, parse_chords(keys@.map_values(|k: String| k@))),
    {
        parse_keys(keys)
    }
}

/// Whether a command is among the given ones.
pub fn holds_command(commands: &Vec<Command>, cmd: &Command) -> (r: bool)
    ensures
        r == commands@.map_values(|c: Command| c@).contains(cmd@),
{
    let ghost values = commands@.map_values(|c: Command| c@);
    let mut i: usize = 0;
    while i < commands.len()
        invariant
            i <= commands.len(),
            values == commands@.map_values(|c: Command| c@),
            forall|j: int| 0 <= j < i ==> values[j] != cmd@,
        decreases commands.len() - i,
    {
        assert(values[i as int] == commands@[i as int]@);
        if commands[i].same(cmd) {
            return true;
        }
        i += 1;
    }
    false
}

} // verus!
