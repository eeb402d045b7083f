//! What the dashboard shows and asks for: instance counts, which actions an
//! instance allows, filtering, and the texts and values it derives from
//! user input.
use vstd::prelude::*;
use crate::instance::{Instance, InstanceStatus};
use crate::text::{
    ascii_lower, cat, contains, dec, dec_string, lowercase_of, str_contains, to_lowercase, trim,
};

verus! {

// ---------------------------------------------------------------------------
// Instance counts
// ---------------------------------------------------------------------------

/// How many instances there are, by status; `pending` counts those starting
/// or stopping.
#[derive(Debug, Clone, Copy, PartialEq, Eq)]
pub struct InstanceSummary {
    pub total: usize,
    pub running: usize,
    pub stopped: usize,
    pub suspended: usize,
    pub errors: usize,
    pub pending: usize,
}

/// The number of instances in `s` whose status is one of `a`, `b`.
pub open spec fn count_status(s: Seq<Instance>, a: InstanceStatus, b: InstanceStatus) -> nat
    decreases s.len(),
{
    if s.len() == 0 {
        0
    } else {
        count_status(s.drop_last(), a, b) + (if s.last().status == a || s.last().status == b {
            1nat
        } else {
            0nat
        })
    }
}

impl InstanceSummary {
    /// The counts of a list of instances.
    pub fn from_instances(instances: &[Instance]) -> (r: Self)
        ensures
            r.total == instances@.len(),
            r.running == count_status(instances@, InstanceStatus::Running, InstanceStatus::Running),
            r.stopped == count_status(instances@, InstanceStatus::Stopped, InstanceStatus::Stopped),
            r.suspended == count_status(
                instances@,
                InstanceStatus::Suspended,
                InstanceStatus::Suspended,
            ),
            r.errors == count_status(instances@, InstanceStatus::Error, InstanceStatus::Error),
            r.pending == count_status(instances@, InstanceStatus::Starting, InstanceStatus::Stopping),
    {
        let ghost s = instances@;
        let mut r = InstanceSummary {
            total: 0,
            running: 0,
            stopped: 0,
            suspended: 0,
            errors: 0,
            pending: 0,
        };
        let mut i: usize = 0;
        while i < instances.len()
            invariant
                s == instances@,
                i <= instances.len(),
                r.total == i,
                r.running + r.stopped + r.suspended + r.errors + r.pending == i,
                r.running == count_status(s.take(i as int), InstanceStatus::Running, InstanceStatus::Running),
                r.stopped == count_status(s.take(i as int), InstanceStatus::Stopped, InstanceStatus::Stopped),
                r.suspended == count_status(
                    s.take(i as int),
                    InstanceStatus::Suspended,
                    InstanceStatus::Suspended,
                ),
                r.errors == count_status(s.take(i as int), InstanceStatus::Error, InstanceStatus::Error),
                r.pending == count_status(
                    s.take(i as int),
                    InstanceStatus::Starting,
                    InstanceStatus::Stopping,
                ),
            decreases instances.len() - i,
        {
            assert(s.take(i + 1).drop_last() =~= s.take(i as int));
            assert(s.take(i + 1).last() == instances@[i as int]);
            r.total = r.total + 1;
            match instances[i].status {
                InstanceStatus::Running => r.running = r.running + 1,
                InstanceStatus::Stopped => r.stopped = r.stopped + 1,
                InstanceStatus::Suspended => r.suspended = r.suspended + 1,
                InstanceStatus::Error => r.errors = r.errors + 1,
                InstanceStatus::Starting | InstanceStatus::Stopping => r.pending = r.pending + 1,
            }
            i += 1;
        }
        assert(s.take(instances.len() as int) =~= s);
        r
    }
}

// ---------------------------------------------------------------------------
// Actions and filtering
// ---------------------------------------------------------------------------

/// Which of start, stop and restart the selected instance allows.
pub open spec fn action_state(selected: Option<InstanceStatus>) -> (bool, bool, bool) {
    match selected {
        Some(InstanceStatus::Running) => (false, true, true),
        Some(InstanceStatus::Stopped) => (true, false, false),
        Some(InstanceStatus::Suspended) => (true, true, true),
        Some(InstanceStatus::Error) => (true, false, true),
        Some(InstanceStatus::Starting) => (false, false, false),
        Some(InstanceStatus::Stopping) => (false, false, false),
        None => (false, false, false),
    }
}

/// Whether start, stop and restart are offered for the selected instance's
/// status (`None`: nothing is selected).
pub fn compute_action_state(selected: Option<InstanceStatus>) -> (r: (bool, bool, bool))
    ensures
        r == action_state(selected),
{
    match selected {
        Some(InstanceStatus::Running) => (false, true, true),
        Some(InstanceStatus::Stopped) => (true, false, false),
        Some(InstanceStatus::Suspended) => (true, true, true),
        Some(InstanceStatus::Error) => (true, false, true),
        Some(InstanceStatus::Starting) | Some(InstanceStatus::Stopping) => (false, false, false),
        None => (false, false, false),
    }
}

/// An instance is listed when it is running or not only running ones are
/// shown, and the filter is empty or occurs, ignoring case, in its name or
/// its network.
pub open spec fn displayed(only_running: bool, i: Instance, filter: Seq<char>) -> bool {
    if only_running && i.status != InstanceStatus::Running {
        false
    } else if filter.len() == 0 {
        true
    } else {
        let f = lowercase_of(filter);
        contains(lowercase_of(i.name@), f) || match i.network {
            Some(n) => contains(lowercase_of(n@), f),
            None => false,
        }
    }
}

/// Whether the instance list shows `instance` (see `displayed`).
pub fn should_display(only_running: bool, instance: &Instance, filter: &str) -> (r: bool)
    ensures
        r == displayed(only_running, *instance, filter@),
{
    if only_running && instance.status != InstanceStatus::Running {
        return false;
    }
    if filter.unicode_len() == 0 {
        return true;
    }
    let f = to_lowercase(filter);
    let name = to_lowercase(instance.name.as_str());
    if str_contains(name.as_str(), f.as_str()) {
        return true;
    }
    match &instance.network {
        Some(n) => {
            let net = to_lowercase(n.as_str());
            str_contains(net.as_str(), f.as_str())
        },
        None => false,
    }
}

// ---------------------------------------------------------------------------
// Texts
// ---------------------------------------------------------------------------

/// How long ago something happened, `secs` seconds back.
pub open spec fn elapsed_text(secs: nat) -> Seq<char> {
    if secs < 2 {
        "just now"@
    } else if secs < 60 {
        dec(secs) + "s ago"@
    } else if secs < 3600 {
        dec(secs / 60) + "m "@ + dec(secs % 60) + "s ago"@
    } else {
        dec(secs / 3600) + "h "@ + dec((secs % 3600) / 60) + "m ago"@
    }
}

/// The text for an elapsed time of `secs` seconds (see `elapsed_text`).
pub fn format_elapsed(secs: u64) -> (r: String)
    ensures
        r@ == elapsed_text(secs as nat),
{
    if secs < 2 {
        "just now".to_owned()
    } else if secs < 60 {
        cat(dec_string(secs).as_str(), "s ago")
    } else if secs < 3600 {
        let mut r = dec_string(secs / 60);
        r.append("m ");
        r.append(dec_string(secs % 60).as_str());
        r.append("s ago");
        r
    } else {
        let mut r = dec_string(secs / 3600);
        r.append("h ");
        r.append(dec_string((secs % 3600) / 60).as_str());
        r.append("m ago");
        r
    }
}

/// The label of a UI font choice; an unknown choice shows the system default.
pub open spec fn font_label(id: Seq<char>) -> Seq<char> {
    if id == "fira-code-nerd"@ {
        "Fira Code Nerd (semi-bold)"@
    } else {
        "System default"@
    }
}

/// The description of a UI font choice; an unknown choice describes the
/// system default.
pub open spec fn font_description(id: Seq<char>) -> Seq<char> {
    if id == "fira-code-nerd"@ {
        "Requires Nerd Font installation under ~/.local/share/fonts or /usr/share/fonts."@
    } else {
        "Use the platform's proportional UI fonts."@
    }
}

/// The label of the font choice `font_family` (see `font_label`).
pub fn font_choice_label(font_family: &str) -> (r: &'static str)
    ensures
        r@ == font_label(font_family@),
{
    if crate::text::str_eq(font_family, "fira-code-nerd") {
        "Fira Code Nerd (semi-bold)"
    } else {
        "System default"
    }
}

/// The description of the font choice `font_family` (see `font_description`).
pub fn font_choice_description(font_family: &str) -> (r: &'static str)
    ensures
        r@ == font_description(font_family@),
{
    if crate::text::str_eq(font_family, "fira-code-nerd") {
        "Requires Nerd Font installation under ~/.local/share/fonts or /usr/share/fonts."
    } else {
        "Use the platform's proportional UI fonts."
    }
}

/// The libosinfo variant of a Linux template or ISO by its lower-cased name.
pub open spec fn linux_variant(lower: Seq<char>) -> Seq<char> {
    if contains(lower, "ubuntu"@) {
        "ubuntu24.04"@
    } else if contains(lower, "debian"@) {
        "debian12"@
    } else if contains(lower, "fedora"@) || contains(lower, "nobara"@) || contains(lower, "bazzite"@) {
        "fedora40"@
    } else if contains(lower, "arch"@) {
        "archlinux"@
    } else {
        "linux2022"@
    }
}

/// The OS variant `virt-install` is told: from the selected template (its
/// OS type and name) when there is one, else from the ISO path.
pub open spec fn os_variant(template: Option<(Seq<char>, Seq<char>)>, iso_path: Seq<char>) -> Seq<char> {
    match template {
        Some((os_type, name)) => if os_type == "windows"@ {
            if contains(name, "11"@) {
                "win11"@
            } else {
                "win10"@
            }
        } else if os_type == "linux"@ {
            linux_variant(lowercase_of(name))
        } else {
            "linux2022"@
        },
        None => {
            let iso = lowercase_of(iso_path);
            if contains(iso, "win"@) {
                if contains(iso, "11"@) {
                    "win11"@
                } else {
                    "win10"@
                }
            } else {
                linux_variant(iso)
            }
        },
    }
}

fn linux_variant_exec(lower: &str) -> (r: String)
    ensures
        r@ == linux_variant(lower@),
{
    if str_contains(lower, "ubuntu") {
        "ubuntu24.04".to_owned()
    } else if str_contains(lower, "debian") {
        "debian12".to_owned()
    } else if str_contains(lower, "fedora") || str_contains(lower, "nobara") || str_contains(
        lower,
        "bazzite",
    ) {
        "fedora40".to_owned()
    } else if str_contains(lower, "arch") {
        "archlinux".to_owned()
    } else {
        "linux2022".to_owned()
    }
}

/// The OS variant for a new VM (see `os_variant`); `template` is the
/// selected template's OS type and name.
pub fn detect_os_variant(template: Option<(&str, &str)>, iso_path: &str) -> (r: String)
    ensures
        r@ == os_variant(
            match template {
                Some((t, n)) => Some((t@, n@)),
                None => None,
            },
            iso_path@,
        ),
{
    match template {
        Some((os_type, name)) => {
            if crate::text::str_eq(os_type, "windows") {
                if str_contains(name, "11") {
                    "win11".to_owned()
                } else {
                    "win10".to_owned()
                }
            } else if crate::text::str_eq(os_type, "linux") {
                let lower = to_lowercase(name);
                linux_variant_exec(lower.as_str())
            } else {
                "linux2022".to_owned()
            }
        },
        None => {
            let iso = to_lowercase(iso_path);
            if str_contains(iso.as_str(), "win") {
                if str_contains(iso.as_str(), "11") {
                    "win11".to_owned()
                } else {
                    "win10".to_owned()
                }
            } else {
                linux_variant_exec(iso.as_str())
            }
        },
    }
}


// ---------------------------------------------------------------------------
// File names
// ---------------------------------------------------------------------------

/// Letters, digits, `-` and `_` may stand in a file name as they are.
pub open spec fn safe_char(c: char) -> bool {
    ('a' <= c && c <= 'z') || ('A' <= c && c <= 'Z') || ('0' <= c && c <= '9') || c == '-' || c
        == '_'
}

/// Every other character replaced by `-`.
pub open spec fn dashed(s: Seq<char>) -> Seq<char> {
    s.map_values(|c: char| if safe_char(c) { c } else { '-' })
}

/// Each run of `-` cut down to one.
pub open spec fn squeeze_dashes(s: Seq<char>) -> Seq<char>
    decreases s.len(),
{
    if s.len() == 0 {
        Seq::empty()
    } else {
        let p = squeeze_dashes(s.drop_last());
        if s.last() == '-' && p.len() > 0 && p.last() == '-' {
            p
        } else {
            p.push(s.last())
        }
    }
}

/// Leading `-` removed.
pub open spec fn trim_dashes_start(s: Seq<char>) -> Seq<char>
    decreases s.len(),
{
    if s.len() > 0 && s[0] == '-' {
        trim_dashes_start(s.drop_first())
    } else {
        s
    }
}

/// Trailing `-` removed.
pub open spec fn trim_dashes_end(s: Seq<char>) -> Seq<char>
    decreases s.len(),
{
    if s.len() > 0 && s.last() == '-' {
        trim_dashes_end(s.drop_last())
    } else {
        s
    }
}

/// A file name made from any text: other characters become `-`, runs of
/// `-` one `-`, leading and trailing `-` go, and nothing left is `container`.
pub open spec fn sanitized(input: Seq<char>) -> Seq<char> {
    let t = trim_dashes_end(trim_dashes_start(squeeze_dashes(dashed(input))));
    if t.len() == 0 {
        "container"@
    } else {
        t
    }
}

/// A file name for exported text (see `sanitized`).
pub fn sanitize_filename(input: &str) -> (r: String)
    ensures
        r@ == sanitized(input@),
{
    let v = crate::text::chars_of(input);
    let ghost d = dashed(v@);
    let mut out: Vec<char> = Vec::new();
    let mut i: usize = 0;
    while i < v.len()
        invariant
            d == dashed(v@),
            v@ == input@,
            i <= v.len(),
            out@ == squeeze_dashes(d.take(i as int)),
        decreases v.len() - i,
    {
        let c = v[i];
        let m = if ('a' <= c && c <= 'z') || ('A' <= c && c <= 'Z') || ('0' <= c && c <= '9') || c
            == '-' || c == '_' {
            c
        } else {
            '-'
        };
        assert(d.take(i + 1).drop_last() =~= d.take(i as int));
        assert(d.take(i + 1).last() == m);
        if !(m == '-' && out.len() > 0 && out[out.len() - 1] == '-') {
            out.push(m);
        }
        i += 1;
    }
    assert(d.take(v.len() as int) =~= d);
    let ghost sq = out@;
    let mut a: usize = 0;
    assert(sq.skip(0) =~= sq);
    while a < out.len() && out[a] == '-'
        invariant
            sq == out@,
            a <= out.len(),
            trim_dashes_start(sq) == trim_dashes_start(sq.skip(a as int)),
        decreases out.len() - a,
    {
        assert(sq.skip(a as int).drop_first() =~= sq.skip(a + 1));
        a += 1;
    }
    let ghost st = sq.skip(a as int);
    assert(trim_dashes_start(st) == st);
    let mut b: usize = out.len();
    assert(sq.subrange(a as int, b as int) =~= st);
    while b > a && out[b - 1] == '-'
        invariant
            sq == out@,
            st == sq.skip(a as int),
            a <= b <= out.len(),
            trim_dashes_end(st) == trim_dashes_end(sq.subrange(a as int, b as int)),
        decreases b,
    {
        assert(sq.subrange(a as int, b as int).drop_last() =~= sq.subrange(a as int, b - 1));
        b -= 1;
    }
    let t = crate::text::string_of(&out, a, b);
    assert(trim_dashes_end(sq.subrange(a as int, b as int)) == sq.subrange(a as int, b as int));
    if a == b {
        "container".to_owned()
    } else {
        t
    }
}


// ---------------------------------------------------------------------------
// The UI font setting
// ---------------------------------------------------------------------------

/// The font family the UI uses for a configured one: blank means the
/// default (`fira-code-nerd`); otherwise the trimmed, ASCII-lower-cased name
/// when it is one of the font choices, else the default again.
pub open spec fn normalized_font_family(configured: Seq<char>) -> Seq<char> {
    let t = trim(configured);
    let candidate = if t.len() == 0 {
        "fira-code-nerd"@
    } else {
        t.map_values(|c: char| ascii_lower(c))
    };
    if candidate == "fira-code-nerd"@ || candidate == "system-default"@ {
        candidate
    } else {
        "fira-code-nerd"@
    }
}

/// The font family to use for the configured one (see
/// `normalized_font_family`), and whether the configuration must be
/// written back because the family changed.
pub fn normalize_font_family(configured: &str) -> (r: (String, bool))
    ensures
        r.0@ == normalized_font_family(configured@),
        r.1 == (r.0@ != configured@),
{
    let t = crate::text::trim_str(configured);
    let candidate = if t.unicode_len() == 0 {
        "fira-code-nerd".to_owned()
    } else {
        let v = crate::text::chars_of(t.as_str());
        let mut lower = String::new();
        let mut i: usize = 0;
        while i < v.len()
            invariant
                i <= v.len(),
                v@ == t@,
                lower@ == v@.take(i as int).map_values(|c: char| ascii_lower(c)),
            decreases v.len() - i,
        {
            crate::text::push_char(&mut lower, crate::text::ascii_lower_exec(v[i]));
            assert(lower@ =~= v@.take(i + 1).map_values(|c: char| ascii_lower(c)));
            i += 1;
        }
        assert(v@.take(v.len() as int) =~= v@);
        lower
    };
    let family = if crate::text::str_eq(candidate.as_str(), "fira-code-nerd") || crate::text::str_eq(
        candidate.as_str(),
        "system-default",
    ) {
        candidate
    } else {
        "fira-code-nerd".to_owned()
    };
    let changed = !crate::text::str_eq(family.as_str(), configured);
    (family, changed)
}


// ---------------------------------------------------------------------------
// Attaching interfaces to a switch
// ---------------------------------------------------------------------------

/// The interface preselected for attaching to a switch, given the one chosen
/// so far and the interfaces that can still be attached (those not already
/// bridged to it), in order: the choice stays while it can be attached;
/// otherwise the first that can, or none (empty) when none can.
pub open spec fn attach_selection(current: Seq<char>, available: Seq<Seq<char>>) -> Seq<char> {
    if current.len() > 0 && available.contains(current) {
        current
    } else if available.len() > 0 {
        available[0]
    } else {
        Seq::empty()
    }
}

/// The interface to preselect (see `attach_selection`).
pub fn reconcile_attach_selection(current: &str, available: &Vec<String>) -> (r: String)
    ensures
        r@ == attach_selection(current@, crate::text::views(available@)),
{
    let ghost av = crate::text::views(available@);
    if current.unicode_len() > 0 {
        let mut i: usize = 0;
        while i < available.len()
            invariant
                av == crate::text::views(available@),
                current@.len() > 0,
                i <= available.len(),
                forall|j: int| 0 <= j < i ==> av[j] != current@,
            decreases available.len() - i,
        {
            if crate::text::str_eq(available[i].as_str(), current) {
                assert(av[i as int] == current@);
                assert(av.contains(current@));
                return crate::text::owned(current);
            }
            i += 1;
        }
        assert(!av.contains(current@));
    }
    if available.len() > 0 {
        available[0].clone()
    } else {
        String::new()
    }
}

} // verus!
