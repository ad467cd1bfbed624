//! Launch-at-login autostart.
//!
//! [`AutostartProvider`] is the OS mechanism (on Windows the per-user `Run`
//! registry value, implemented by the application). [`apply_autostart`] is
//! the transactional rule on top: perform the OS change, confirm it through
//! the system, and only then write `autostart` into the config and persist
//! it. So the config never claims a state the OS does not have.
use vstd::prelude::*;
use vstd::cell::invcell::InvCell;
use crate::config::{Config, ConfigError};
use crate::text::push_chars;

verus! {

/// The OS mechanism for launch-at-login. Errors carry a readable detail.
pub trait AutostartProvider {
    /// Register the app to launch at login.
    fn enable(&self) -> Result<(), String>;

    /// Unregister. Disabling something already disabled succeeds.
    fn disable(&self) -> Result<(), String>;

    /// Whether the app is currently registered.
    fn is_enabled(&self) -> Result<bool, String>;
}

/// Why [`apply_autostart`] failed: the OS refused or did not confirm the
/// change (config untouched), or the change stuck but persisting the config
/// failed.
#[derive(Debug, Clone, PartialEq, Eq)]
pub enum AutostartError {
    Backend(String),
    Persist(ConfigError),
}

impl AutostartError {
    /// "autostart: <detail>" or "autostart persisted change failed: <error>".
    pub open spec fn message_spec(&self) -> Seq<char> {
        match self {
            AutostartError::Backend(d) => seq![
                'a',
                'u',
                't',
                'o',
                's',
                't',
                'a',
                'r',
                't',
                ':',
                ' ',
            ] + d@,
            AutostartError::Persist(e) => seq![
                'a', 'u', 't', 'o', 's', 't', 'a', 'r', 't', ' ', 'p', 'e', 'r', 's', 'i', 's',
                't', 'e', 'd', ' ', 'c', 'h', 'a', 'n', 'g', 'e', ' ', 'f', 'a', 'i', 'l', 'e',
                'd', ':', ' ',
            ] + e.message_spec(),
        }
    }

    pub fn message(&self) -> (r: String)
        ensures
            r@ == self.message_spec(),
    {
        let mut out = String::new();
        match self {
            AutostartError::Backend(d) => {
                push_chars(&mut out, &['a', 'u', 't', 'o', 's', 't', 'a', 'r', 't', ':', ' ']);
                crate::text::push_str(&mut out, d.as_str());
            },
            AutostartError::Persist(e) => {
                push_chars(
                    &mut out,
                    &[
                        'a', 'u', 't', 'o', 's', 't', 'a', 'r', 't', ' ', 'p', 'e', 'r', 's', 'i',
                        's', 't', 'e', 'd', ' ', 'c', 'h', 'a', 'n', 'g', 'e', ' ', 'f', 'a', 'i',
                        'l', 'e', 'd', ':', ' ',
                    ],
                );
                let m = e.message();
                crate::text::push_str(&mut out, m.as_str());
            },
        }
        out
    }
}

pub open spec fn bool_word(b: bool) -> Seq<char> {
    if b {
        seq!['t', 'r', 'u', 'e']
    } else {
        seq!['f', 'a', 'l', 's', 'e']
    }
}

fn push_bool(out: &mut String, b: bool)
    ensures
        final(out)@ == old(out)@ + bool_word(b),
{
    if b {
        push_chars(out, &['t', 'r', 'u', 'e']);
    } else {
        push_chars(out, &['f', 'a', 'l', 's', 'e']);
    }
}

/// "system did not confirm autostart=<desired> (is_enabled reports <confirmed>)".
pub open spec fn unconfirmed_message(desired: bool, confirmed: bool) -> Seq<char> {
    seq![
        's', 'y', 's', 't', 'e', 'm', ' ', 'd', 'i', 'd', ' ', 'n', 'o', 't', ' ', 'c', 'o', 'n',
        'f', 'i', 'r', 'm', ' ', 'a', 'u', 't', 'o', 's', 't', 'a', 'r', 't', '=',
    ] + bool_word(desired) + seq![
        ' ', '(', 'i', 's', '_', 'e', 'n', 'a', 'b', 'l', 'e', 'd', ' ', 'r', 'e', 'p', 'o', 'r',
        't', 's', ' ',
    ] + bool_word(confirmed) + seq![')']
}

fn unconfirmed(desired: bool, confirmed: bool) -> (r: String)
    ensures
        r@ == unconfirmed_message(desired, confirmed),
{
    let mut out = String::new();
    push_chars(
        &mut out,
        &[
            's', 'y', 's', 't', 'e', 'm', ' ', 'd', 'i', 'd', ' ', 'n', 'o', 't', ' ', 'c', 'o',
            'n', 'f', 'i', 'r', 'm', ' ', 'a', 'u', 't', 'o', 's', 't', 'a', 'r', 't', '=',
        ],
    );
    push_bool(&mut out, desired);
    push_chars(
        &mut out,
        &[
            ' ', '(', 'i', 's', '_', 'e', 'n', 'a', 'b', 'l', 'e', 'd', ' ', 'r', 'e', 'p', 'o',
            'r', 't', 's', ' ',
        ],
    );
    push_bool(&mut out, confirmed);
    push_chars(&mut out, &[')']);
    out
}

/// `c` is `base` with only `autostart` changed to `desired`.
pub open spec fn with_autostart(base: Config, c: Config, desired: bool) -> bool {
    c.hotkey == base.hotkey && c.default_interval_minutes == base.default_interval_minutes
        && c.autostart == desired
}

/// The OS call that moves the registration to a desired state.
#[derive(Debug, Clone, Copy, PartialEq, Eq, Structural)]
pub enum OsCall {
    Enable,
    Disable,
}

/// `enable` to turn autostart on, `disable` to turn it off.
pub fn os_call(desired: bool) -> (c: OsCall)
    ensures
        c == (if desired {
            OsCall::Enable
        } else {
            OsCall::Disable
        }),
{
    if desired {
        OsCall::Enable
    } else {
        OsCall::Disable
    }
}

/// Where the transaction stands after the OS call and, once made, the
/// confirmation through `is_enabled`.
#[derive(Debug, Clone, PartialEq, Eq)]
pub enum AutostartStep {
    /// Stop with a backend error carrying this detail; the config stays.
    Fail(String),
    /// The OS call succeeded: ask the system to confirm.
    Confirm,
    /// The system confirmed the desired state: write and persist the config.
    Commit,
}

/// The backend error's detail, if the transaction stops at this point: the
/// OS call's error, the confirmation's error, or the confirmation reporting
/// the other state.
pub open spec fn step_failure(
    os: Result<(), String>,
    confirmed: Option<Result<bool, String>>,
    desired: bool,
) -> Option<Seq<char>> {
    match os {
        Err(e) => Some(e@),
        Ok(_) => match confirmed {
            None => None,
            Some(Err(e)) => Some(e@),
            Some(Ok(b)) => if b == desired {
                None
            } else {
                Some(unconfirmed_message(desired, b))
            },
        },
    }
}

/// The next step of the transaction given what the OS call returned and,
/// when it has been asked, what the confirmation returned.
pub fn autostart_step(
    os: Result<(), String>,
    confirmed: Option<Result<bool, String>>,
    desired: bool,
) -> (r: AutostartStep)
    ensures
        match step_failure(os, confirmed, desired) {
            Some(m) => r matches AutostartStep::Fail(d) && d@ == m,
            None => if confirmed is None {
                r is Confirm
            } else {
                r is Commit
            },
        },
{
    match os {
        Err(e) => AutostartStep::Fail(e),
        Ok(()) => match confirmed {
            None => AutostartStep::Confirm,
            Some(Err(e)) => AutostartStep::Fail(e),
            Some(Ok(b)) => {
                if b == desired {
                    AutostartStep::Commit
                } else {
                    AutostartStep::Fail(unconfirmed(desired, b))
                }
            },
        },
    }
}

/// How a transaction ends when the OS call gave `os` and the confirmation
/// `confirmed` (`None`: not asked): a failure at either point is a backend
/// error with that detail and leaves the config as it was; otherwise the
/// system was asked, confirmed, and the config became `before` with only
/// `autostart` set, whatever `persist` then answered.
pub open spec fn autostart_settles(
    os: Result<(), String>,
    confirmed: Option<Result<bool, String>>,
    desired: bool,
    before: Config,
    after: Config,
    r: Result<(), AutostartError>,
) -> bool {
    &&& os is Err ==> confirmed is None
    &&& match step_failure(os, confirmed, desired) {
        Some(m) => r matches Err(AutostartError::Backend(d)) && d@ == m && after == before,
        None => confirmed is Some && with_autostart(before, after, desired) && !(r matches Err(
            AutostartError::Backend(_),
        )),
    }
}

/// `os` is an answer the provider can give to the OS call for `desired`
/// (`enable` to turn autostart on, `disable` to turn it off), and
/// `confirmed`, when asked, an answer its `is_enabled` can give.
pub open spec fn provider_answered<P: AutostartProvider + ?Sized>(
    provider: &P,
    desired: bool,
    os: Result<(), String>,
    confirmed: Option<Result<bool, String>>,
) -> bool {
    &&& if desired {
        call_ensures(P::enable, (provider,), os)
    } else {
        call_ensures(P::disable, (provider,), os)
    }
    &&& confirmed matches Some(c) ==> call_ensures(P::is_enabled, (provider,), c)
}

/// Transactionally move autostart to `desired`: the OS call `os_call(desired)`,
/// then confirmation through `is_enabled`, then the config, then `persist`.
///
/// If the OS change fails or is not confirmed, the config is left exactly as
/// it was and `persist` is never called, so a failed registry write cannot
/// leave a config that claims autostart is on. What the provider answers is
/// its own affair: the outcome is the one `autostart_step` settles for
/// answers its `enable` or `disable` (as `desired` asks) and then its
/// `is_enabled` can give.
pub fn apply_autostart<P: AutostartProvider + ?Sized, F: FnOnce(&Config) -> Result<(), ConfigError>>(
    provider: &P,
    config: &mut Config,
    desired: bool,
    persist: F,
) -> (r: Result<(), AutostartError>)
    requires
        forall|c: &Config| persist.requires((c,)),
    ensures
        exists|os: Result<(), String>, confirmed: Option<Result<bool, String>>|
            #[trigger] autostart_settles(os, confirmed, desired, *old(config), *final(config), r)
                && provider_answered(provider, desired, os, confirmed),
        r matches Err(AutostartError::Backend(_)) ==> *final(config) == *old(config),
        !(r matches Err(AutostartError::Backend(_))) ==> with_autostart(
            *old(config),
            *final(config),
            desired,
        ),
        r is Ok ==> persist.ensures((&*final(config),), Ok(())),
        r matches Err(AutostartError::Persist(e)) ==> persist.ensures((&*final(config),), Err(e)),
{
    let ghost before = *config;
    let os_result = match os_call(desired) {
        OsCall::Enable => provider.enable(),
        OsCall::Disable => provider.disable(),
    };
    let ghost os = os_result;
    if let AutostartStep::Fail(d) = autostart_step(os_result, None, desired) {
        let r = Err(AutostartError::Backend(d));
        assert(autostart_settles(os, None, desired, before, *config, r));
        assert(provider_answered(provider, desired, os, None));
        return r;
    }
    let confirmed = provider.is_enabled();
    let ghost conf = Some(confirmed);
    if let AutostartStep::Fail(d) = autostart_step(Ok(()), Some(confirmed), desired) {
        let r = Err(AutostartError::Backend(d));
        assert(step_failure(os, conf, desired) == step_failure(Ok(()), conf, desired));
        assert(autostart_settles(os, conf, desired, before, *config, r));
        assert(provider_answered(provider, desired, os, conf));
        return r;
    }
    config.autostart = desired;
    let res = persist(&*config);
    proof {
        assert(persist.ensures((&*config,), res));
    }
    let r = match res {
        Ok(u) => {
            assert(res == Ok::<(), ConfigError>(()));
            Ok(())
        },
        Err(e) => Err(AutostartError::Persist(e)),
    };
    assert(step_failure(os, conf, desired) == step_failure(Ok(()), conf, desired));
    assert(autostart_settles(os, conf, desired, before, *config, r));
    assert(provider_answered(provider, desired, os, conf));
    r
}

/// In-memory provider for tests and for builds without a registry. Tracks
/// the enabled flag and can be told to fail a given call.
pub struct FakeProvider {
    enabled: InvCell<bool, spec_fn(bool) -> bool>,
    fail_enable: bool,
    fail_disable: bool,
    /// When set, `is_enabled` reports the opposite of the tracked state, as
    /// an OS change that silently did not stick.
    lie_on_confirm: bool,
}

impl FakeProvider {
    /// The states the tracked flag can take: a provider whose `enable`
    /// fails can never become enabled, one whose `disable` fails can never
    /// become disabled.
    #[verifier::type_invariant]
    closed spec fn flag_stays_reachable(self) -> bool {
        &&& !(self.fail_enable && self.fail_disable)
        &&& forall|b: bool| #[trigger]
            self.enabled.inv(b) == ((self.fail_enable ==> !b) && (self.fail_disable ==> b))
    }

    fn build(enabled: bool, fail_enable: bool, fail_disable: bool, lie_on_confirm: bool) -> (r:
        FakeProvider)
        requires
            !(fail_enable && fail_disable),
            fail_enable ==> !enabled,
            fail_disable ==> enabled,
        ensures
            r.fails_enable() == fail_enable,
            r.fails_disable() == fail_disable,
            r.lies() == lie_on_confirm,
    {
        FakeProvider {
            enabled: InvCell::new(
                enabled,
                Ghost(|b: bool| (fail_enable ==> !b) && (fail_disable ==> b)),
            ),
            fail_enable,
            fail_disable,
            lie_on_confirm,
        }
    }

    pub fn new(enabled: bool) -> (r: FakeProvider)
        ensures
            !r.fails_enable() && !r.fails_disable() && !r.lies(),
    {
        Self::build(enabled, false, false, false)
    }

    /// A provider, initially disabled, whose `enable` fails.
    pub fn failing_enable() -> (r: FakeProvider)
        ensures
            r.fails_enable() && !r.fails_disable() && !r.lies(),
    {
        Self::build(false, true, false, false)
    }

    /// A provider, initially enabled, whose `disable` fails.
    pub fn failing_disable() -> (r: FakeProvider)
        ensures
            !r.fails_enable() && r.fails_disable() && !r.lies(),
    {
        Self::build(true, false, true, false)
    }

    /// A provider, initially disabled, whose changes are not confirmed.
    pub fn unconfirmed() -> (r: FakeProvider)
        ensures
            !r.fails_enable() && !r.fails_disable() && r.lies(),
    {
        Self::build(false, false, false, true)
    }

    pub closed spec fn fails_enable(&self) -> bool {
        self.fail_enable
    }

    pub closed spec fn fails_disable(&self) -> bool {
        self.fail_disable
    }

    pub closed spec fn lies(&self) -> bool {
        self.lie_on_confirm
    }
}

impl AutostartProvider for FakeProvider {
    fn enable(&self) -> (r: Result<(), String>)
        ensures
            r is Err <==> self.fails_enable(),
    {
        if self.fail_enable {
            let mut msg = String::new();
            push_chars(
                &mut msg,
                &['f', 'a', 'k', 'e', ' ', 'e', 'n', 'a', 'b', 'l', 'e', ' ', 'f', 'a', 'i', 'l', 'e', 'd'],
            );
            return Err(msg);
        }
        proof {
            use_type_invariant(self);
        }
        self.enabled.set(true);
        Ok(())
    }

    fn disable(&self) -> (r: Result<(), String>)
        ensures
            r is Err <==> self.fails_disable(),
    {
        if self.fail_disable {
            let mut msg = String::new();
            push_chars(
                &mut msg,
                &['f', 'a', 'k', 'e', ' ', 'd', 'i', 's', 'a', 'b', 'l', 'e', ' ', 'f', 'a', 'i', 'l', 'e', 'd'],
            );
            return Err(msg);
        }
        proof {
            use_type_invariant(self);
        }
        self.enabled.set(false);
        Ok(())
    }

    fn is_enabled(&self) -> (r: Result<bool, String>)
        ensures
            r is Ok,
            self.fails_enable() ==> r == Ok::<bool, String>(self.lies()),
            self.fails_disable() ==> r == Ok::<bool, String>(!self.lies()),
    {
        proof {
            use_type_invariant(self);
        }
        let v = self.enabled.get();
        Ok(v != self.lie_on_confirm)
    }
}

} // verus!
