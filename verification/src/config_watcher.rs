//! Live reload of `config.json`: the field-level difference between the
//! config in effect and the one just re-read. The file watcher itself runs
//! in the application; only the hotkey has a live effect today, the other
//! fields are record-keeping.
use vstd::prelude::*;
use crate::config::Config;

verus! {

/// One field that differs between two configs.
#[derive(Debug, Clone, PartialEq, Eq)]
pub enum ConfigChange {
    HotkeyChanged { from: String, to: String },
    IntervalChanged,
    AutostartChanged,
}

/// A change as values.
pub enum ChangeView {
    Hotkey(Seq<char>, Seq<char>),
    Interval,
    Autostart,
}

impl ConfigChange {
    pub open spec fn view_change(&self) -> ChangeView {
        match self {
            ConfigChange::HotkeyChanged { from, to } => ChangeView::Hotkey(from@, to@),
            ConfigChange::IntervalChanged => ChangeView::Interval,
            ConfigChange::AutostartChanged => ChangeView::Autostart,
        }
    }
}

/// The changes from `old` to `new`, in field order: hotkey, interval,
/// autostart. The interval is compared by bit pattern, so a NaN re-saved
/// unchanged is no change.
pub open spec fn diff_spec(old: Config, new: Config) -> Seq<ChangeView> {
    (if old.hotkey@ != new.hotkey@ {
        seq![ChangeView::Hotkey(old.hotkey@, new.hotkey@)]
    } else {
        Seq::empty()
    }) + (if old.default_interval_minutes.0 != new.default_interval_minutes.0 {
        seq![ChangeView::Interval]
    } else {
        Seq::empty()
    }) + (if old.autostart != new.autostart {
        seq![ChangeView::Autostart]
    } else {
        Seq::empty()
    })
}

pub open spec fn changes_view(v: Seq<ConfigChange>) -> Seq<ChangeView> {
    v.map_values(|c: ConfigChange| c.view_change())
}

/// Two configs that hold the same values.
pub open spec fn same_config(a: Config, b: Config) -> bool {
    a.hotkey@ == b.hotkey@ && a.default_interval_minutes.0 == b.default_interval_minutes.0
        && a.autostart == b.autostart
}

/// Compute the field-level changes from `old` to `new`; empty when they
/// hold the same values.
pub fn diff(old: &Config, new: &Config) -> (r: Vec<ConfigChange>)
    ensures
        changes_view(r@) == diff_spec(*old, *new),
        r@.len() == 0 <==> same_config(*old, *new),
{
    let mut out: Vec<ConfigChange> = Vec::new();
    let ghost e: Seq<ChangeView> = Seq::empty();
    if !crate::text::same_text(old.hotkey.as_str(), new.hotkey.as_str()) {
        out.push(ConfigChange::HotkeyChanged { from: old.hotkey.clone(), to: new.hotkey.clone() });
    }
    let ghost after_hotkey = out@;
    assert(changes_view(out@) =~= (if old.hotkey@ != new.hotkey@ {
        seq![ChangeView::Hotkey(old.hotkey@, new.hotkey@)]
    } else {
        e
    }));
    if !old.default_interval_minutes.same_bits(&new.default_interval_minutes) {
        out.push(ConfigChange::IntervalChanged);
    }
    assert(changes_view(out@) =~= (if old.hotkey@ != new.hotkey@ {
        seq![ChangeView::Hotkey(old.hotkey@, new.hotkey@)]
    } else {
        e
    }) + (if old.default_interval_minutes.0 != new.default_interval_minutes.0 {
        seq![ChangeView::Interval]
    } else {
        e
    }));
    if old.autostart != new.autostart {
        out.push(ConfigChange::AutostartChanged);
    }
    assert(changes_view(out@) =~= diff_spec(*old, *new));
    out
}

/// Diffing a config with one holding the same values reports nothing, and a
/// non-empty diff always names a field that differs.
pub proof fn lemma_diff_empty_iff_same(old: Config, new: Config)
    ensures
        diff_spec(old, new).len() == 0 <==> same_config(old, new),
{
}

/// A path's file name, when it has one, is `name`.
pub open spec fn names_file(file_name: Option<String>, name: Seq<char>) -> bool {
    match file_name {
        Some(n) => n@ == name,
        None => false,
    }
}

/// Whether a file-system event concerns the config file: one of the paths
/// it names has the config file's name (`None` stands for a path without a
/// file name). The watcher observes the whole folder, because an atomic
/// save replaces the file by renaming a temporary one over it; other files
/// there, such as the journal, must not trigger a reload.
pub fn event_mentions_config(file_names: &[Option<String>], config_file_name: &str) -> (r: bool)
    ensures
        r == exists|i: int|
            0 <= i < file_names@.len() && names_file(#[trigger] file_names@[i], config_file_name@),
{
    let mut i: usize = 0;
    while i < file_names.len()
        invariant
            i <= file_names@.len(),
            forall|j: int|
                0 <= j < i ==> !names_file(#[trigger] file_names@[j], config_file_name@),
        decreases file_names@.len() - i,
    {
        if let Some(n) = &file_names[i] {
            if crate::text::same_text(n.as_str(), config_file_name) {
                return true;
            }
        }
        i = i + 1;
    }
    false
}

} // verus!
