//! The ledger of what was done: one event for each action that was applied,
//! so that an action is not applied twice.

use crate::plan::{Plan, PlanState};
use crate::text::{optional_str, optional_text, owned, str_eq};
use vstd::prelude::*;

verus! {

/// An action of a plugin on a project, with the identifier under which it
/// was recorded.
#[derive(Debug)]
pub struct Event {
    pub id: String,
    pub plugin: String,
    pub project: String,
    pub package: Option<String>,
    pub action: String,
    pub args: String,
}

/// What tells one action from another: everything but the identifier.
pub struct EventKey {
    pub plugin: Seq<char>,
    pub project: Seq<char>,
    pub package: Option<Seq<char>>,
    pub action: Seq<char>,
    pub args: Seq<char>,
}

/// A new version-4 UUID from `uuid::Uuid::new_v4`, in the hyphenated form of
/// 36 characters. Which one comes is left to chance.
#[verifier::external_body]
fn fresh_id() -> (id: String)
    ensures
        id@.len() == 36,
{
    uuid::Uuid::new_v4().to_string()
}

impl Event {
    /// What tells this event from others.
    pub open spec fn key(&self) -> EventKey {
        EventKey {
            plugin: self.plugin@,
            project: self.project@,
            package: optional_text(self.package),
            action: self.action@,
            args: self.args@,
        }
    }

    /// An event on a project as a whole, under a fresh identifier.
    pub fn new(plugin: &str, project: &str, action: &str, args: &str) -> (event: Event)
        ensures
            event.key() == (EventKey {
                plugin: plugin@,
                project: project@,
                package: None,
                action: action@,
                args: args@,
            }),
            event.id@.len() == 36,
    {
        Event {
            id: fresh_id(),
            plugin: owned(plugin),
            project: owned(project),
            package: None,
            action: owned(action),
            args: owned(args),
        }
    }

    /// An event on one package of a project, under a fresh identifier.
    pub fn for_package(plugin: &str, project: &str, package: &str, action: &str, args: &str) -> (event:
        Event)
        ensures
            event.key() == (EventKey {
                plugin: plugin@,
                project: project@,
                package: Some(package@),
                action: action@,
                args: args@,
            }),
            event.id@.len() == 36,
    {
        Event {
            id: fresh_id(),
            plugin: owned(plugin),
            project: owned(project),
            package: Some(owned(package)),
            action: owned(action),
            args: owned(args),
        }
    }

    /// Tells whether the event is the action with the given key.
    pub fn matches_key(
        &self,
        plugin: &str,
        project: &str,
        package: Option<&str>,
        action: &str,
        args: &str,
    ) -> (r: bool)
        ensures
            r == (self.key() == EventKey {
                plugin: plugin@,
                project: project@,
                package: optional_str(package),
                action: action@,
                args: args@,
            }),
    {
        let same_package = match &self.package {
            Some(mine) => match package {
                Some(theirs) => str_eq(mine.as_str(), theirs),
                None => false,
            },
            None => package.is_none(),
        };
        same_package && str_eq(self.plugin.as_str(), plugin) && str_eq(self.project.as_str(), project)
            && str_eq(self.action.as_str(), action) && str_eq(self.args.as_str(), args)
    }
}

/// The keys of a list of events.
pub open spec fn recorded(events: Seq<Event>) -> Set<EventKey> {
    Set::new(|k: EventKey| exists|i: int| 0 <= i < events.len() && (#[trigger] events[i]).key() == k)
}

/// The events that were recorded.
#[derive(Debug)]
pub struct EventLedger {
    events: Vec<Event>,
}

impl View for EventLedger {
    type V = Set<EventKey>;

    closed spec fn view(&self) -> Set<EventKey> {
        recorded(self.events@)
    }
}

impl EventLedger {
    /// A ledger without events.
    pub fn new() -> (ledger: EventLedger)
        ensures
            ledger@ == Set::<EventKey>::empty(),
    {
        let ledger = EventLedger { events: Vec::new() };
        assert(ledger@ =~= Set::<EventKey>::empty());
        ledger
    }

    /// Tells whether the action was recorded.
    pub fn event_exists(
        &self,
        plugin: &str,
        project: &str,
        package: Option<&str>,
        action: &str,
        args: &str,
    ) -> (r: bool)
        ensures
            r == self@.contains(
                EventKey {
                    plugin: plugin@,
                    project: project@,
                    package: optional_str(package),
                    action: action@,
                    args: args@,
                },
            ),
    {
        let mut i: usize = 0;
        while i < self.events.len()
            invariant
                0 <= i <= self.events@.len(),
                forall|k: int|
                    0 <= k < i ==> (#[trigger] self.events@[k]).key() != (EventKey {
                        plugin: plugin@,
                        project: project@,
                        package: optional_str(package),
                        action: action@,
                        args: args@,
                    }),
            decreases self.events@.len() - i,
        {
            if self.events[i].matches_key(plugin, project, package, action, args) {
                return true;
            }
            i += 1;
        }
        false
    }

    /// Records the action, under a fresh identifier. Every action that was
    /// recorded before stays recorded, and no other action is added.
    pub fn insert_event(
        &mut self,
        plugin: &str,
        project: &str,
        package: Option<&str>,
        action: &str,
        args: &str,
    )
        ensures
            final(self)@ == old(self)@.insert(
                EventKey {
                    plugin: plugin@,
                    project: project@,
                    package: optional_str(package),
                    action: action@,
                    args: args@,
                },
            ),
    {
        let event = match package {
            Some(p) => Event::for_package(plugin, project, p, action, args),
            None => Event::new(plugin, project, action, args),
        };
        let ghost key = event.key();
        let ghost before = self.events@;
        self.events.push(event);
        proof {
            let after = self.events@;
            assert forall|k: EventKey| recorded(after).contains(k) <==> recorded(before).insert(
                key,
            ).contains(k) by {
                if recorded(after).contains(k) {
                    let i = choose|i: int| 0 <= i < after.len() && (#[trigger] after[i]).key() == k;
                    if i < before.len() {
                        assert(before[i].key() == k);
                    }
                }
                if recorded(before).contains(k) {
                    let i = choose|i: int| 0 <= i < before.len() && (#[trigger] before[i]).key() == k;
                    assert(after[i].key() == k);
                }
                if k == key {
                    assert(after[before.len() as int].key() == k);
                }
            }
            assert(recorded(after) =~= recorded(before).insert(key));
        }
    }
}

impl EventLedger {
    /// Records the action of a plan, and only of a plan that was applied:
    /// for any other plan the ledger stays as it is. Tells whether the
    /// action was recorded.
    pub fn record_applied(
        &mut self,
        plan: &Plan,
        plugin: &str,
        project: &str,
        package: Option<&str>,
        action: &str,
        args: &str,
    ) -> (recorded: bool)
        ensures
            recorded == (plan.state() == PlanState::Applied),
            recorded ==> final(self)@ == old(self)@.insert(
                EventKey {
                    plugin: plugin@,
                    project: project@,
                    package: optional_str(package),
                    action: action@,
                    args: args@,
                },
            ),
            !recorded ==> final(self)@ == old(self)@,
    {
        match plan.current_state() {
            PlanState::Applied => {
                self.insert_event(plugin, project, package, action, args);
                true
            },
            _ => false,
        }
    }
}

/// An action is not in a new ledger; once recorded it is found; and
/// recording it makes no other action found that was not found before.
pub proof fn lemma_recorded_exactly(ledger: Set<EventKey>, key: EventKey, other: EventKey)
    ensures
        !Set::<EventKey>::empty().contains(key),
        ledger.insert(key).contains(key),
        other != key ==> ledger.insert(key).contains(other) == ledger.contains(other),
        other != key ==> !Set::<EventKey>::empty().insert(key).contains(other),
{
}

} // verus!
