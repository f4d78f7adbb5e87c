//! Saving the settings page: the order in which the global shortcut, the
//! autostart entry, the stored SMTP password and the database are changed,
//! and how the changes already made are undone when a later one fails.
//!
//! The application performs each action and reports how it went; the
//! decisions are made here, one event at a time.
use vstd::prelude::*;

use crate::domain::{Settings, UpdateSettingsInput};
use crate::text::{concat, str_eq, trim_seq};

verus! {

/// Something the application does with the system or the store.
#[derive(Debug, Clone)]
pub enum SettingsAction {
    /// Read the stored SMTP password (answered by `Password`).
    ReadPassword,
    /// Read whether autostart is enabled (answered by `Autostart`).
    ReadAutostart,
    /// Ask whether a shortcut is registered (answered by `Flag`).
    QueryShortcut(String),
    /// Unregister a shortcut (answered by `Outcome`).
    UnregisterShortcut(String),
    /// Register a shortcut (answered by `Outcome`).
    RegisterShortcut(String),
    /// Switch autostart on or off and confirm it (answered by `Outcome`).
    SetAutostart(bool),
    /// Store a new SMTP password (answered by `Outcome`).
    StorePassword(String),
    /// Write the settings to the database (answered by `Saved`).
    Save,
    /// Put back the previous SMTP password, or remove it.
    RestorePassword(Option<String>),
    /// Give the previous shortcut back in place of the attempted one.
    RestoreShortcut { previous: String, attempted: String },
    /// Forget that the SMTP settings were verified.
    InvalidateVerification,
    /// Clear the warning about an unusable shortcut.
    ClearShortcutWarning,
    /// Let the scheduler look at the reminders again.
    WakeScheduler,
}

/// How an action went.
#[derive(Debug)]
pub enum SettingsEvent {
    Password(Result<Option<String>, String>),
    Autostart(Result<bool, String>),
    Flag(bool),
    Outcome(Result<(), String>),
    Saved(Result<Settings, String>),
}

/// What to do next.
#[derive(Debug)]
pub enum SettingsStep {
    /// Perform the action and report how it went.
    Perform(SettingsAction),
    /// The update is over: perform the follow-up actions in order (their
    /// outcomes are only logged) and answer with the result.
    Finish { follow_up: Vec<SettingsAction>, result: Result<Settings, String> },
}

/// Which answer the update waits for.
#[derive(Debug, Clone, Copy, PartialEq, Eq, Structural)]
pub enum SettingsPhase {
    Password,
    Autostart,
    Query,
    Release,
    Register,
    Switch,
    Store,
    Save,
    Done,
}

/// A settings update in progress.
#[derive(Debug)]
pub struct SettingsUpdate {
    pub previous_shortcut: String,
    pub next_shortcut: String,
    pub next_autostart: bool,
    pub autostart_changed: bool,
    pub smtp_enabled: bool,
    /// The submitted password, when one was typed.
    pub submitted_password: Option<String>,
    /// The password stored before the update, once read.
    pub previous_password: Option<String>,
    /// The autostart state before the update, once read.
    pub autostart_before: Option<bool>,
    /// The previous shortcut has been unregistered.
    pub released: bool,
    /// The new shortcut has been registered.
    pub registered: bool,
    /// Autostart has been switched.
    pub switched: bool,
    /// The submitted password has been stored.
    pub password_changed: bool,
    pub phase: SettingsPhase,
}

/// The complaint when mail is switched on without any password.
pub const PASSWORD_REQUIRED: &'static str = "启用邮件通知前，请填写 SMTP 密码并保存。";

/// The complaint when the previous shortcut cannot be released.
pub const RELEASE_FAILED: &'static str = "无法释放原快捷键；设置没有更改，请重启闪记后再试。";

/// The complaint when the new shortcut is taken.
pub open spec fn shortcut_taken_message(shortcut: Seq<char>) -> Seq<char> {
    "快捷键“"@ + shortcut + "”已被其他程序占用或被系统保留，请换一个组合；原快捷键仍然有效。"@
}

/// The complaint when the new shortcut is taken.
pub fn shortcut_taken(shortcut: &str) -> (r: String)
    ensures
        r@ == shortcut_taken_message(shortcut@),
{
    let a = concat("快捷键“", shortcut);
    let r = concat(a.as_str(), "”已被其他程序占用或被系统保留，请换一个组合；原快捷键仍然有效。");
    r
}

// ---------------------------------------------------------------------------
// Where the update goes next
// ---------------------------------------------------------------------------
/// The phase entered when the database is next: always saving.
pub open spec fn from_save() -> SettingsPhase {
    SettingsPhase::Save
}

/// The phase entered when the password is next: storing it when one was
/// submitted, else saving.
pub open spec fn from_store(s: SettingsUpdate) -> SettingsPhase {
    if s.submitted_password is Some {
        SettingsPhase::Store
    } else {
        from_save()
    }
}

/// The phase entered when autostart is next: switching it when it was read
/// and differs from the wanted state.
pub open spec fn from_switch(s: SettingsUpdate) -> SettingsPhase {
    if s.autostart_before matches Some(b) && b != s.next_autostart {
        SettingsPhase::Switch
    } else {
        from_store(s)
    }
}

/// The phase entered when the shortcut is next: asking about the previous
/// shortcut when the shortcut changes.
pub open spec fn from_shortcut(s: SettingsUpdate) -> SettingsPhase {
    if s.previous_shortcut@ != s.next_shortcut@ {
        SettingsPhase::Query
    } else {
        from_switch(s)
    }
}

/// The phase entered once the password question is settled: reading
/// autostart when the setting changes.
pub open spec fn from_autostart(s: SettingsUpdate) -> SettingsPhase {
    if s.autostart_changed {
        SettingsPhase::Autostart
    } else {
        from_shortcut(s)
    }
}

/// The action that a phase performs.
pub open spec fn phase_action(s: SettingsUpdate, p: SettingsPhase) -> Option<SettingsAction> {
    match p {
        SettingsPhase::Password => Some(SettingsAction::ReadPassword),
        SettingsPhase::Autostart => Some(SettingsAction::ReadAutostart),
        SettingsPhase::Query => Some(SettingsAction::QueryShortcut(s.previous_shortcut)),
        SettingsPhase::Release => Some(SettingsAction::UnregisterShortcut(s.previous_shortcut)),
        SettingsPhase::Register => Some(SettingsAction::RegisterShortcut(s.next_shortcut)),
        SettingsPhase::Switch => Some(SettingsAction::SetAutostart(s.next_autostart)),
        SettingsPhase::Store => match s.submitted_password {
            Some(p) => Some(SettingsAction::StorePassword(p)),
            None => None,
        },
        SettingsPhase::Save => Some(SettingsAction::Save),
        SettingsPhase::Done => None,
    }
}

/// The step performs the action of the update's current phase.
pub open spec fn performs_phase(s: SettingsUpdate, step: SettingsStep) -> bool {
    s.phase != SettingsPhase::Done && phase_action(s, s.phase) == Some(
        step->Perform_0,
    ) && step is Perform
}

/// The event is the kind of answer the phase waits for.
pub open spec fn expects(s: SettingsUpdate, e: SettingsEvent) -> bool {
    match s.phase {
        SettingsPhase::Password => e is Password,
        SettingsPhase::Autostart => e is Autostart,
        SettingsPhase::Query => e is Flag,
        SettingsPhase::Release | SettingsPhase::Register | SettingsPhase::Switch
        | SettingsPhase::Store => e is Outcome,
        SettingsPhase::Save => e is Saved,
        SettingsPhase::Done => false,
    }
}

/// The settings that are not part of the progress are unchanged.
pub open spec fn same_request(a: SettingsUpdate, b: SettingsUpdate) -> bool {
    &&& a.previous_shortcut == b.previous_shortcut
    &&& a.next_shortcut == b.next_shortcut
    &&& a.next_autostart == b.next_autostart
    &&& a.autostart_changed == b.autostart_changed
    &&& a.smtp_enabled == b.smtp_enabled
    &&& a.submitted_password == b.submitted_password
}

// ---------------------------------------------------------------------------
// The laws of rollback
// ---------------------------------------------------------------------------
/// The follow-up undoes every change the update made before it failed: an
/// unregistered previous shortcut is registered again, a registered new one
/// gives way to the previous one, a switched autostart is switched back,
/// and a stored password is replaced by the one stored before.
pub open spec fn undoes_changes(s: SettingsUpdate, follow_up: Seq<SettingsAction>) -> bool {
    &&& s.released ==> (follow_up.contains(SettingsAction::RegisterShortcut(s.previous_shortcut))
        || follow_up.contains(
        SettingsAction::RestoreShortcut {
            previous: s.previous_shortcut,
            attempted: s.next_shortcut,
        },
    ))
    &&& s.registered ==> follow_up.contains(
        SettingsAction::RestoreShortcut { previous: s.previous_shortcut, attempted: s.next_shortcut },
    )
    &&& s.switched ==> (s.autostart_before matches Some(b) && follow_up.contains(
        SettingsAction::SetAutostart(b),
    ))
    &&& s.password_changed ==> follow_up.contains(
        SettingsAction::RestorePassword(s.previous_password),
    )
}

/// A follow-up that undoes nothing.
pub open spec fn no_undo(follow_up: Seq<SettingsAction>) -> bool {
    forall|i: int|
        0 <= i < follow_up.len() ==> !(#[trigger] follow_up[i] is RestoreShortcut)
            && !(follow_up[i] is RestorePassword) && !(follow_up[i] is SetAutostart)
            && !(follow_up[i] is RegisterShortcut)
}

impl SettingsUpdate {
    /// Starts an update from the stored `previous` settings to what `input`
    /// asks for.  The stored password is read first when mail will be on or
    /// a new password was typed (an empty one counts as none).
    pub fn begin(previous: &Settings, input: &UpdateSettingsInput) -> (r: (SettingsUpdate, SettingsStep))
        ensures
            r.0.previous_shortcut == previous.global_shortcut,
            r.0.next_shortcut@ == trim_seq(input.global_shortcut@),
            r.0.next_autostart == input.autostart_enabled,
            r.0.autostart_changed == (previous.autostart_enabled != input.autostart_enabled),
            r.0.smtp_enabled == input.smtp_enabled,
            match input.smtp_password {
                Some(p) => if p@.len() > 0 {
                    r.0.submitted_password == Some(p)
                } else {
                    r.0.submitted_password is None
                },
                None => r.0.submitted_password is None,
            },
            r.0.previous_password is None && r.0.autostart_before is None,
            !r.0.released && !r.0.registered && !r.0.switched && !r.0.password_changed,
            r.0.phase == (if input.smtp_enabled || r.0.submitted_password is Some {
                SettingsPhase::Password
            } else {
                from_autostart(r.0)
            }),
            performs_phase(r.0, r.1),
    {
        let next = input.settings();
        let submitted_password = match &input.smtp_password {
            Some(p) => if !p.as_str().is_empty() {
                Some(p.clone())
            } else {
                None
            },
            None => None,
        };
        let mut update = SettingsUpdate {
            previous_shortcut: previous.global_shortcut.clone(),
            next_shortcut: next.global_shortcut,
            next_autostart: next.autostart_enabled,
            autostart_changed: previous.autostart_enabled != next.autostart_enabled,
            smtp_enabled: next.smtp_enabled,
            submitted_password,
            previous_password: None,
            autostart_before: None,
            released: false,
            registered: false,
            switched: false,
            password_changed: false,
            phase: SettingsPhase::Password,
        };
        if update.smtp_enabled || update.submitted_password.is_some() {
            (update, SettingsStep::Perform(SettingsAction::ReadPassword))
        } else {
            let step = update.enter_autostart();
            (update, step)
        }
    }

    /// Moves to the phase `from_save` names and performs its action.
    fn enter_save(&mut self) -> (r: SettingsStep)
        ensures
            same_request(*old(self), *final(self)),
            final(self).phase == from_save(),
            final(self).previous_password == old(self).previous_password,
            final(self).autostart_before == old(self).autostart_before,
            final(self).released == old(self).released,
            final(self).registered == old(self).registered,
            final(self).switched == old(self).switched,
            final(self).password_changed == old(self).password_changed,
            performs_phase(*final(self), r),
    {
        self.phase = SettingsPhase::Save;
        SettingsStep::Perform(SettingsAction::Save)
    }

    /// Moves to the phase `from_store` names and performs its action.
    fn enter_store(&mut self) -> (r: SettingsStep)
        ensures
            same_request(*old(self), *final(self)),
            final(self).phase == from_store(*old(self)),
            final(self).previous_password == old(self).previous_password,
            final(self).autostart_before == old(self).autostart_before,
            final(self).released == old(self).released,
            final(self).registered == old(self).registered,
            final(self).switched == old(self).switched,
            final(self).password_changed == old(self).password_changed,
            performs_phase(*final(self), r),
    {
        match &self.submitted_password {
            Some(p) => {
                let p = p.clone();
                self.phase = SettingsPhase::Store;
                SettingsStep::Perform(SettingsAction::StorePassword(p))
            },
            None => self.enter_save(),
        }
    }

    /// Moves to the phase `from_switch` names and performs its action.
    fn enter_switch(&mut self) -> (r: SettingsStep)
        ensures
            same_request(*old(self), *final(self)),
            final(self).phase == from_switch(*old(self)),
            final(self).previous_password == old(self).previous_password,
            final(self).autostart_before == old(self).autostart_before,
            final(self).released == old(self).released,
            final(self).registered == old(self).registered,
            final(self).switched == old(self).switched,
            final(self).password_changed == old(self).password_changed,
            performs_phase(*final(self), r),
    {
        match self.autostart_before {
            Some(b) => if b != self.next_autostart {
                self.phase = SettingsPhase::Switch;
                return SettingsStep::Perform(SettingsAction::SetAutostart(self.next_autostart));
            },
            None => {},
        }
        self.enter_store()
    }

    /// Moves to the phase `from_shortcut` names and performs its action.
    fn enter_shortcut(&mut self) -> (r: SettingsStep)
        ensures
            same_request(*old(self), *final(self)),
            final(self).phase == from_shortcut(*old(self)),
            final(self).previous_password == old(self).previous_password,
            final(self).autostart_before == old(self).autostart_before,
            final(self).released == old(self).released,
            final(self).registered == old(self).registered,
            final(self).switched == old(self).switched,
            final(self).password_changed == old(self).password_changed,
            performs_phase(*final(self), r),
    {
        if !str_eq(self.previous_shortcut.as_str(), self.next_shortcut.as_str()) {
            self.phase = SettingsPhase::Query;
            SettingsStep::Perform(SettingsAction::QueryShortcut(self.previous_shortcut.clone()))
        } else {
            self.enter_switch()
        }
    }

    /// Moves to the phase `from_autostart` names and performs its action.
    fn enter_autostart(&mut self) -> (r: SettingsStep)
        ensures
            same_request(*old(self), *final(self)),
            final(self).phase == from_autostart(*old(self)),
            final(self).previous_password == old(self).previous_password,
            final(self).autostart_before == old(self).autostart_before,
            final(self).released == old(self).released,
            final(self).registered == old(self).registered,
            final(self).switched == old(self).switched,
            final(self).password_changed == old(self).password_changed,
            performs_phase(*final(self), r),
    {
        if self.autostart_changed {
            self.phase = SettingsPhase::Autostart;
            SettingsStep::Perform(SettingsAction::ReadAutostart)
        } else {
            self.enter_shortcut()
        }
    }

    /// Ends the update with `result` after the follow-up actions.
    fn finish(&mut self, follow_up: Vec<SettingsAction>, result: Result<Settings, String>) -> (r:
        SettingsStep)
        ensures
            same_request(*old(self), *final(self)),
            final(self).phase == SettingsPhase::Done,
            final(self).previous_password == old(self).previous_password,
            final(self).autostart_before == old(self).autostart_before,
            final(self).released == old(self).released,
            final(self).registered == old(self).registered,
            final(self).switched == old(self).switched,
            final(self).password_changed == old(self).password_changed,
            r == (SettingsStep::Finish { follow_up, result }),
    {
        self.phase = SettingsPhase::Done;
        SettingsStep::Finish { follow_up, result }
    }

    /// The undo actions after a failure: the previous password (when one
    /// was stored in its place), autostart as it was read (when it was
    /// read), and the previous shortcut (when the shortcut changed), in
    /// that order.
    fn rollback(&self, restore_password: bool) -> (r: Vec<SettingsAction>)
        ensures
            r@ == rollback_spec(*self, restore_password),
    {
        let mut follow: Vec<SettingsAction> = Vec::new();
        if restore_password {
            follow.push(SettingsAction::RestorePassword(self.previous_password.clone()));
        }
        let ghost first = follow@;
        match self.autostart_before {
            Some(b) => {
                follow.push(SettingsAction::SetAutostart(b));
            },
            None => {},
        }
        let ghost second = follow@;
        if !str_eq(self.previous_shortcut.as_str(), self.next_shortcut.as_str()) {
            let previous = self.previous_shortcut.clone();
            let attempted = self.next_shortcut.clone();
            follow.push(SettingsAction::RestoreShortcut { previous, attempted });
        }
        proof {
            assert(follow@ =~= rollback_spec(*self, restore_password));
        }
        follow
    }

    /// Takes the answer to the action last performed and decides what
    /// comes next.
    pub fn step(&mut self, event: SettingsEvent) -> (r: SettingsStep)
        requires
            expects(*old(self), event),
            wf(*old(self)),
        ensures
            wf(*final(self)),
            same_request(*old(self), *final(self)),
            step_spec(*old(self), event, *final(self), r),
            // A failed update undoes what it changed; a successful one
            // undoes nothing.
            r matches SettingsStep::Finish { follow_up, result: Err(_) } ==> undoes_changes(
                *old(self),
                follow_up@,
            ),
            r matches SettingsStep::Finish { follow_up, result: Ok(_) } ==> no_undo(follow_up@),
    {
        proof {
            lemma_rollback_undoes(*self, self.password_changed);
        }
        match event {
            SettingsEvent::Password(answer) => match answer {
                Err(message) => self.finish(Vec::new(), Err(message)),
                Ok(stored) => {
                    let missing = self.smtp_enabled && self.submitted_password.is_none()
                        && stored.is_none();
                    self.previous_password = stored;
                    if missing {
                        self.finish(Vec::new(), Err(crate::text::owned(PASSWORD_REQUIRED)))
                    } else {
                        self.enter_autostart()
                    }
                },
            },
            SettingsEvent::Autostart(answer) => match answer {
                Err(message) => self.finish(Vec::new(), Err(message)),
                Ok(enabled) => {
                    self.autostart_before = Some(enabled);
                    self.enter_shortcut()
                },
            },
            SettingsEvent::Flag(registered) => {
                if registered {
                    self.phase = SettingsPhase::Release;
                    SettingsStep::Perform(
                        SettingsAction::UnregisterShortcut(self.previous_shortcut.clone()),
                    )
                } else {
                    self.phase = SettingsPhase::Register;
                    SettingsStep::Perform(SettingsAction::RegisterShortcut(self.next_shortcut.clone()))
                }
            },
            SettingsEvent::Outcome(outcome) => match self.phase {
                SettingsPhase::Release => match outcome {
                    Err(_) => self.finish(Vec::new(), Err(crate::text::owned(RELEASE_FAILED))),
                    Ok(()) => {
                        self.released = true;
                        self.phase = SettingsPhase::Register;
                        SettingsStep::Perform(
                            SettingsAction::RegisterShortcut(self.next_shortcut.clone()),
                        )
                    },
                },
                SettingsPhase::Register => match outcome {
                    Err(_) => {
                        let mut follow: Vec<SettingsAction> = Vec::new();
                        follow.push(SettingsAction::RegisterShortcut(self.previous_shortcut.clone()));
                        let message = shortcut_taken(self.next_shortcut.as_str());
                        proof {
                            assert(follow@[0] == SettingsAction::RegisterShortcut(
                                self.previous_shortcut,
                            ));
                        }
                        self.finish(follow, Err(message))
                    },
                    Ok(()) => {
                        self.registered = true;
                        self.enter_switch()
                    },
                },
                SettingsPhase::Switch => match outcome {
                    Err(message) => {
                        let follow = self.rollback(false);
                        self.finish(follow, Err(message))
                    },
                    Ok(()) => {
                        self.switched = true;
                        self.enter_store()
                    },
                },
                _ => match outcome {
                    Err(message) => {
                        let follow = self.rollback(false);
                        self.finish(follow, Err(message))
                    },
                    Ok(()) => {
                        self.password_changed = true;
                        self.enter_save()
                    },
                },
            },
            SettingsEvent::Saved(saved) => match saved {
                Ok(settings) => {
                    let mut follow: Vec<SettingsAction> = Vec::new();
                    if self.password_changed {
                        follow.push(SettingsAction::InvalidateVerification);
                    }
                    follow.push(SettingsAction::ClearShortcutWarning);
                    follow.push(SettingsAction::WakeScheduler);
                    proof {
                        assert(follow@ =~= done_follow_up(self.password_changed));
                    }
                    self.finish(follow, Ok(settings))
                },
                Err(message) => {
                    let follow = self.rollback(self.password_changed);
                    self.finish(follow, Err(message))
                },
            },
        }
    }
}

/// The undo actions after a failure, as `rollback` issues them.
pub open spec fn rollback_spec(s: SettingsUpdate, restore_password: bool) -> Seq<SettingsAction> {
    let password: Seq<SettingsAction> = if restore_password {
        seq![SettingsAction::RestorePassword(s.previous_password)]
    } else {
        Seq::empty()
    };
    let autostart: Seq<SettingsAction> = match s.autostart_before {
        Some(b) => seq![SettingsAction::SetAutostart(b)],
        None => Seq::empty(),
    };
    let shortcut: Seq<SettingsAction> = if s.previous_shortcut@ != s.next_shortcut@ {
        seq![
            SettingsAction::RestoreShortcut {
                previous: s.previous_shortcut,
                attempted: s.next_shortcut,
            },
        ]
    } else {
        Seq::empty()
    };
    password + autostart + shortcut
}

/// The follow-up of a successful update: the SMTP verification is dropped
/// when the password changed, the shortcut warning is cleared and the
/// scheduler woken.
pub open spec fn done_follow_up(password_changed: bool) -> Seq<SettingsAction> {
    let first: Seq<SettingsAction> = if password_changed {
        seq![SettingsAction::InvalidateVerification]
    } else {
        Seq::empty()
    };
    first + seq![SettingsAction::ClearShortcutWarning, SettingsAction::WakeScheduler]
}

/// The step ends the update with the follow-up and result given.
pub open spec fn finishes_with(
    r: SettingsStep,
    follow: Seq<SettingsAction>,
    result: Result<Settings, String>,
) -> bool {
    r matches SettingsStep::Finish { follow_up, result: res } && follow_up@ == follow && res == result
}

/// The step ends the update with the follow-up given and an error whose
/// text is `message`.
pub open spec fn fails_with(r: SettingsStep, follow: Seq<SettingsAction>, message: Seq<char>) -> bool {
    r matches SettingsStep::Finish { follow_up, result: Err(m) } && follow_up@ == follow && m@
        == message
}

/// What each answer leads to, phase by phase.
pub open spec fn step_spec(s: SettingsUpdate, e: SettingsEvent, t: SettingsUpdate, r: SettingsStep) -> bool {
    let done = SettingsUpdate { phase: SettingsPhase::Done, ..s };
    match e {
        SettingsEvent::Password(Err(m)) => t == done && finishes_with(r, seq![], Err(m)),
        SettingsEvent::Password(Ok(p)) => if s.smtp_enabled && s.submitted_password is None
            && p is None {
            t == SettingsUpdate { previous_password: p, ..done } && fails_with(
                r,
                seq![],
                PASSWORD_REQUIRED@,
            )
        } else {
            t == SettingsUpdate { previous_password: p, phase: from_autostart(s), ..s }
                && performs_phase(t, r)
        },
        SettingsEvent::Autostart(Err(m)) => t == done && finishes_with(r, seq![], Err(m)),
        SettingsEvent::Autostart(Ok(b)) => {
            let read = SettingsUpdate { autostart_before: Some(b), ..s };
            t == SettingsUpdate { phase: from_shortcut(read), ..read } && performs_phase(t, r)
        },
        SettingsEvent::Flag(registered) => t == SettingsUpdate {
            phase: if registered {
                SettingsPhase::Release
            } else {
                SettingsPhase::Register
            },
            ..s
        } && performs_phase(t, r),
        SettingsEvent::Outcome(o) => match s.phase {
            SettingsPhase::Release => match o {
                Err(_) => t == done && fails_with(r, seq![], RELEASE_FAILED@),
                Ok(_) => t == SettingsUpdate { released: true, phase: SettingsPhase::Register, ..s }
                    && performs_phase(t, r),
            },
            SettingsPhase::Register => match o {
                Err(_) => t == done && fails_with(
                    r,
                    seq![SettingsAction::RegisterShortcut(s.previous_shortcut)],
                    shortcut_taken_message(s.next_shortcut@),
                ),
                Ok(_) => {
                    let registered = SettingsUpdate { registered: true, ..s };
                    t == SettingsUpdate { phase: from_switch(registered), ..registered }
                        && performs_phase(t, r)
                },
            },
            SettingsPhase::Switch => match o {
                Err(m) => t == done && finishes_with(r, rollback_spec(s, false), Err(m)),
                Ok(_) => {
                    let switched = SettingsUpdate { switched: true, ..s };
                    t == SettingsUpdate { phase: from_store(switched), ..switched }
                        && performs_phase(t, r)
                },
            },
            _ => match o {
                Err(m) => t == done && finishes_with(r, rollback_spec(s, false), Err(m)),
                Ok(_) => t == SettingsUpdate {
                    password_changed: true,
                    phase: SettingsPhase::Save,
                    ..s
                } && performs_phase(t, r),
            },
        },
        SettingsEvent::Saved(Ok(settings)) => t == done && finishes_with(
            r,
            done_follow_up(s.password_changed),
            Ok(settings),
        ),
        SettingsEvent::Saved(Err(m)) => t == done && finishes_with(
            r,
            rollback_spec(s, s.password_changed),
            Err(m),
        ),
    }
}

/// What holds of an update between steps: each change is made only in the
/// phases after it, and each phase has what it acts on.
pub open spec fn wf(s: SettingsUpdate) -> bool {
    &&& s.released ==> s.previous_shortcut@ != s.next_shortcut@ && (s.phase
        == SettingsPhase::Register || s.phase == SettingsPhase::Switch || s.phase
        == SettingsPhase::Store || s.phase == SettingsPhase::Save || s.phase
        == SettingsPhase::Done)
    &&& s.registered ==> s.previous_shortcut@ != s.next_shortcut@ && (s.phase
        == SettingsPhase::Switch || s.phase == SettingsPhase::Store || s.phase
        == SettingsPhase::Save || s.phase == SettingsPhase::Done)
    &&& s.switched ==> s.autostart_before is Some && (s.phase == SettingsPhase::Store || s.phase
        == SettingsPhase::Save || s.phase == SettingsPhase::Done)
    &&& s.password_changed ==> (s.phase == SettingsPhase::Save || s.phase == SettingsPhase::Done)
    &&& (s.phase == SettingsPhase::Query || s.phase == SettingsPhase::Release || s.phase
        == SettingsPhase::Register) ==> s.previous_shortcut@ != s.next_shortcut@
    &&& s.phase == SettingsPhase::Switch ==> s.autostart_before is Some
    &&& s.phase == SettingsPhase::Store ==> s.submitted_password is Some
}

/// Undoing after a failure covers every change made so far.
pub proof fn lemma_rollback_undoes(s: SettingsUpdate, restore_password: bool)
    requires
        wf(s),
        s.password_changed ==> restore_password,
    ensures
        undoes_changes(s, rollback_spec(s, restore_password)),
{
    let r = rollback_spec(s, restore_password);
    let k: int = if restore_password { 1 } else { 0 };
    if restore_password {
        assert(r[0] == SettingsAction::RestorePassword(s.previous_password));
    }
    if let Some(b) = s.autostart_before {
        assert(r[k] == SettingsAction::SetAutostart(b));
    }
    if s.previous_shortcut@ != s.next_shortcut@ {
        assert(r[r.len() - 1] == SettingsAction::RestoreShortcut {
            previous: s.previous_shortcut,
            attempted: s.next_shortcut,
        });
    }
}

} // verus!
