//! Short-lived messages to the user.

use vstd::prelude::*;

verus! {

/// How grave a notification is.
#[derive(Debug, Clone, Copy, PartialEq, Eq, Structural)]
pub enum NotificationLevel {
    Error,
    Warning,
    Info,
}

/// A message that is shown for a number of ticks.
#[derive(Debug)]
pub struct Notification {
    pub message: String,
    pub level: NotificationLevel,
    /// The ticks the message has left.
    pub ttl: u16,
}

/// Mathematical model of a [`Notification`].
pub struct Note {
    pub message: Seq<char>,
    pub level: NotificationLevel,
    pub ttl: int,
}

impl View for Notification {
    type V = Note;

    open spec fn view(&self) -> Note {
        Note { message: self.message@, level: self.level, ttl: self.ttl as int }
    }
}

impl Clone for Notification {
    fn clone(&self) -> (copy: Notification)
        ensures
            copy@ == self@,
    {
        Notification { message: self.message.clone(), level: self.level, ttl: self.ttl }
    }
}

/// The ticks a new notification is shown for.
pub const NOTIFICATION_TTL: u16 = 8;

/// The models of a list of notifications.
pub open spec fn notes_of(notifications: Seq<Notification>) -> Seq<Note> {
    Seq::new(notifications.len(), |i: int| notifications[i]@)
}

/// The notifications after one tick: those that had run out are gone, the
/// others have one tick less, in their old order.
pub open spec fn aged(notes: Seq<Note>) -> Seq<Note>
    decreases notes.len(),
{
    if notes.len() == 0 {
        Seq::empty()
    } else if notes.last().ttl > 0 {
        aged(notes.drop_last()).push(Note { ttl: notes.last().ttl - 1, ..notes.last() })
    } else {
        aged(notes.drop_last())
    }
}

impl Notification {
    /// A notification that is shown for eight ticks.
    pub fn new(message: String, level: NotificationLevel) -> (notification: Notification)
        ensures
            notification@ == (Note { message: message@, level, ttl: NOTIFICATION_TTL as int }),
    {
        Notification { message, level, ttl: NOTIFICATION_TTL }
    }

    /// The heading under which notifications of this level are shown.
    pub fn title(&self) -> (title: &'static str)
        ensures
            title@ == match self.level {
                NotificationLevel::Info => "Info"@,
                NotificationLevel::Warning => "Warning"@,
                NotificationLevel::Error => "Error"@,
            },
    {
        match self.level {
            NotificationLevel::Info => "Info",
            NotificationLevel::Warning => "Warning",
            NotificationLevel::Error => "Error",
        }
    }
}

/// Lets one tick pass over the notifications.
pub fn expire(notifications: &mut Vec<Notification>)
    ensures
        notes_of(final(notifications)@) == aged(notes_of(old(notifications)@)),
{
    let ghost before = notes_of(notifications@);
    let mut kept: Vec<Notification> = Vec::new();
    let mut i: usize = 0;
    assert(before.take(0) =~= Seq::<Note>::empty());
    while i < notifications.len()
        invariant
            0 <= i <= notifications.len(),
            before == notes_of(notifications@),
            notes_of(kept@) == aged(before.take(i as int)),
        decreases notifications.len() - i,
    {
        let ghost held = notes_of(kept@);
        proof {
            assert(before.take(i + 1).drop_last() =~= before.take(i as int));
            assert(before.take(i + 1).last() == before[i as int]);
        }
        if notifications[i].ttl > 0 {
            let mut note = notifications[i].clone();
            note.ttl = note.ttl - 1;
            kept.push(note);
            assert(notes_of(kept@) =~= held.push(
                Note { ttl: before[i as int].ttl - 1, ..before[i as int] },
            ));
        }
        i = i + 1;
    }
    assert(before.take(i as int) =~= before);
    *notifications = kept;
}

} // verus!
