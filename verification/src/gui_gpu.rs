//! The state behind the GPU manager panel: the GPUs and groups it shows, the
//! reservations and capabilities, and the diagnostics text. Drawing is done
//! by the caller.
use vstd::prelude::*;
use crate::gpu_doctor::{CheckStatus, DiagnosticReport, GpuDoctor, HostProbe, SystemStatus};
use crate::gpu_passthrough::{discovered_from, GpuCapabilities, GpuManager, PciDevice, PciHostSnapshot};
use crate::pairs::{find_key, keys_distinct, lemma_lookup, pmap, put};
use crate::text::{cat, views};

verus! {

/// The tab the panel shows.
#[derive(Debug, Clone, Copy, PartialEq, Eq, Structural)]
pub enum GpuTab {
    Manager,
    IommuGroups,
    Diagnostics,
}

pub struct GpuManagerGui {
    gpu_manager: GpuManager,
    selected_gpu: Option<String>,
    selected_vm: String,
    active_tab: GpuTab,
    /// GPU list cache
    gpus: Vec<PciDevice>,
    /// IOMMU group number and the addresses of its GPUs
    iommu_groups: Vec<(u32, Vec<String>)>,
    /// Reservations (PCI address, VM name)
    reservations: Vec<(String, String)>,
    /// Cached GPU capabilities by address
    capabilities: Vec<(String, GpuCapabilities)>,
    diagnostic_text: String,
    diagnostic_report: Option<DiagnosticReport>,
    last_message: Option<String>,
    last_error: Option<String>,
}

/// The IOMMU groups of the GPUs, in the order a group first appears, each
/// with the addresses of its GPUs in order.
pub open spec fn group_map(gpus: Seq<PciDevice>) -> Seq<(u32, Seq<Seq<char>>)>
    decreases gpus.len(),
{
    if gpus.len() == 0 {
        Seq::empty()
    } else {
        let m = group_map(gpus.drop_last());
        let g = gpus.last();
        match g.iommu_group {
            Some(n) => if exists|i: int| 0 <= i < m.len() && #[trigger] m[i].0 == n {
                let i = choose|i: int| 0 <= i < m.len() && #[trigger] m[i].0 == n;
                m.update(i, (n, m[i].1.push(g.address@)))
            } else {
                m.push((n, seq![g.address@]))
            },
            None => m,
        }
    }
}

/// The capabilities of the GPUs that have some, by address.
pub open spec fn caps_of_gpus(gpus: Seq<PciDevice>, caps: Map<Seq<char>, GpuCapabilities>) -> Map<Seq<char>, GpuCapabilities>
    decreases gpus.len(),
{
    if gpus.len() == 0 {
        Map::empty()
    } else {
        let m = caps_of_gpus(gpus.drop_last(), caps);
        let a = gpus.last().address@;
        if caps.dom().contains(a) {
            m.insert(a, caps[a])
        } else {
            m
        }
    }
}

pub open spec fn status_name(s: SystemStatus) -> Seq<char> {
    match s {
        SystemStatus::Ready => "Ready"@,
        SystemStatus::NeedsConfiguration => "NeedsConfiguration"@,
        SystemStatus::NotSupported => "NotSupported"@,
    }
}

pub open spec fn status_symbol(s: CheckStatus) -> Seq<char> {
    match s {
        CheckStatus::Pass => "✓"@,
        CheckStatus::Warn => "⚠"@,
        CheckStatus::Fail => "✗"@,
    }
}

/// One line per check (`<symbol> <name>: <message>`), with its fix on the
/// next line when there is one.
pub open spec fn checks_text(cs: Seq<crate::gpu_doctor::DiagnosticCheck>) -> Seq<char>
    decreases cs.len(),
{
    if cs.len() == 0 {
        Seq::empty()
    } else {
        let c = cs.last();
        checks_text(cs.drop_last()) + status_symbol(c.status) + " "@ + c.name@ + ": "@ + c.message@ + "\n"@
            + match c.fix_command {
            Some(f) => "    fix: "@ + f@ + "\n"@,
            None => Seq::empty(),
        }
    }
}

/// The items of a list, each indented on a line of its own.
pub open spec fn items_text(xs: Seq<Seq<char>>) -> Seq<char>
    decreases xs.len(),
{
    if xs.len() == 0 {
        Seq::empty()
    } else {
        items_text(xs.drop_last()) + "  "@ + xs.last() + "\n"@
    }
}

/// A titled list, when it is not empty.
pub open spec fn section_text(title: Seq<char>, xs: Seq<Seq<char>>) -> Seq<char> {
    if xs.len() == 0 {
        Seq::empty()
    } else {
        "\n"@ + title + ":\n"@ + items_text(xs)
    }
}

/// The diagnostics as text: the overall status, the checks, then the
/// errors, warnings and recommendations.
pub open spec fn report_text(r: DiagnosticReport) -> Seq<char> {
    "Overall Status: "@ + status_name(r.overall_status) + "\n\n"@ + checks_text(r.checks@) + section_text(
        "Errors"@,
        views(r.errors@),
    ) + section_text("Warnings"@, views(r.warnings@)) + section_text("Recommendations"@, views(r.recommendations@))
}

fn items_exec(title: &str, xs: &Vec<String>) -> (r: String)
    ensures
        r@ == section_text(title@, views(xs@)),
{
    if xs.len() == 0 {
        return String::new();
    }
    let mut r = cat("\n", title);
    r.append(":\n");
    let ghost head = r@;
    let mut i: usize = 0;
    while i < xs.len()
        invariant
            i <= xs.len(),
            r@ == head + items_text(views(xs@.take(i as int))),
        decreases xs.len() - i,
    {
        assert(views(xs@.take(i + 1)).drop_last() =~= views(xs@.take(i as int)));
        assert(views(xs@.take(i + 1)).last() == xs@[i as int]@);
        r.append("  ");
        r.append(xs[i].as_str());
        r.append("\n");
        assert(r@ =~= head + items_text(views(xs@.take(i + 1))));
        i += 1;
    }
    assert(xs@.take(xs.len() as int) =~= xs@);
    r
}

/// The diagnostics as text (see `report_text`).
pub fn format_report_output(report: &DiagnosticReport) -> (r: String)
    ensures
        r@ == report_text(*report),
{
    let mut buffer = "Overall Status: ".to_owned();
    buffer.append(
        match report.overall_status {
            SystemStatus::Ready => "Ready",
            SystemStatus::NeedsConfiguration => "NeedsConfiguration",
            SystemStatus::NotSupported => "NotSupported",
        },
    );
    buffer.append("\n\n");
    let ghost head = buffer@;
    let mut i: usize = 0;
    while i < report.checks.len()
        invariant
            i <= report.checks.len(),
            buffer@ == head + checks_text(report.checks@.take(i as int)),
        decreases report.checks.len() - i,
    {
        let c = &report.checks[i];
        assert(report.checks@.take(i + 1).drop_last() =~= report.checks@.take(i as int));
        buffer.append(
            match c.status {
                CheckStatus::Pass => "✓",
                CheckStatus::Warn => "⚠",
                CheckStatus::Fail => "✗",
            },
        );
        buffer.append(" ");
        buffer.append(c.name.as_str());
        buffer.append(": ");
        buffer.append(c.message.as_str());
        buffer.append("\n");
        if let Some(fix) = &c.fix_command {
            buffer.append("    fix: ");
            buffer.append(fix.as_str());
            buffer.append("\n");
        }
        assert(buffer@ =~= head + checks_text(report.checks@.take(i + 1)));
        i += 1;
    }
    assert(report.checks@.take(report.checks.len() as int) =~= report.checks@);
    buffer.append(items_exec("Errors", &report.errors).as_str());
    buffer.append(items_exec("Warnings", &report.warnings).as_str());
    buffer.append(items_exec("Recommendations", &report.recommendations).as_str());
    buffer
}

fn group_position(r: &Vec<(u32, Vec<String>)>, n: u32) -> (pos: Option<usize>)
    ensures
        pos matches Some(j) ==> j < r@.len() && r@[j as int].0 == n,
        pos is None ==> forall|k: int| 0 <= k < r@.len() ==> (#[trigger] r@[k]).0 != n,
{
    let mut j: usize = 0;
    while j < r.len()
        invariant
            j <= r.len(),
            forall|k: int| 0 <= k < j ==> (#[trigger] r@[k]).0 != n,
        decreases r.len() - j,
    {
        if r[j].0 == n {
            return Some(j);
        }
        j += 1;
    }
    None
}

/// The groups of the GPUs (see `group_map`).
fn groups_of(gpus: &Vec<PciDevice>) -> (r: Vec<(u32, Vec<String>)>)
    ensures
        r@.len() == group_map(gpus@).len(),
        forall|k: int| 0 <= k < r@.len() ==> (#[trigger] r@[k]).0 == group_map(gpus@)[k].0 && views(r@[k].1@) == group_map(gpus@)[k].1,
{
    let mut r: Vec<(u32, Vec<String>)> = Vec::new();
    let mut i: usize = 0;
    while i < gpus.len()
        invariant
            i <= gpus.len(),
            r@.len() == group_map(gpus@.take(i as int)).len(),
            forall|k: int| 0 <= k < r@.len() ==> (#[trigger] r@[k]).0 == group_map(gpus@.take(i as int))[k].0
                && views(r@[k].1@) == group_map(gpus@.take(i as int))[k].1,
            forall|a: int, b: int| 0 <= a < b < r@.len() ==> #[trigger] r@[a].0 != #[trigger] r@[b].0,
        decreases gpus.len() - i,
    {
        let ghost m = group_map(gpus@.take(i as int));
        assert(gpus@.take(i + 1).drop_last() =~= gpus@.take(i as int));
        assert(gpus@.take(i + 1).last() == gpus@[i as int]);
        if let Some(n) = gpus[i].iommu_group {
            let pos = group_position(&r, n);
            if let Some(j) = pos {
                proof {
                    let c = choose|c: int| 0 <= c < m.len() && #[trigger] m[c].0 == n;
                    if c != j {
                        if c < j {
                            assert(r@[c].0 != n);
                        } else {
                            assert(r@[j as int].0 != r@[c].0);
                        }
                    }
                }
                let ghost r0 = r@;
                let (g, mut addrs) = r.remove(j);
                let ghost a0 = views(addrs@);
                addrs.push(gpus[i].address.clone());
                assert(views(addrs@) =~= a0.push(gpus@[i as int].address@));
                r.insert(j, (g, addrs));
                assert forall|k: int| 0 <= k < r@.len() && k != j implies r@[k] == r0[k] by {}
            } else {
                assert(!exists|c: int| 0 <= c < m.len() && #[trigger] m[c].0 == n) by {
                    assert(forall|k: int| 0 <= k < r@.len() ==> (#[trigger] r@[k]).0 != n);
                    if exists|c: int| 0 <= c < m.len() && #[trigger] m[c].0 == n {
                        let c = choose|c: int| 0 <= c < m.len() && #[trigger] m[c].0 == n;
                        assert(r@[c].0 == n);
                    }
                }
                let ghost r0 = r@;
                let addrs: Vec<String> = vec![gpus[i].address.clone()];
                assert(views(addrs@) =~= seq![gpus@[i as int].address@]);
                r.push((n, addrs));
                assert forall|k: int| 0 <= k < r0.len() implies r@[k] == r0[k] by {}
            }
        }
        i += 1;
    }
    assert(gpus@.take(gpus.len() as int) =~= gpus@);
    r
}

impl GpuManagerGui {
    pub closed spec fn manager_view(self) -> GpuManager {
        self.gpu_manager
    }

    pub closed spec fn gpus_view(self) -> Seq<PciDevice> {
        self.gpus@
    }

    pub closed spec fn groups_view(self) -> Seq<(u32, Seq<Seq<char>>)> {
        self.iommu_groups@.map_values(|e: (u32, Vec<String>)| (e.0, views(e.1@)))
    }

    pub closed spec fn reservations_view(self) -> Map<Seq<char>, String> {
        pmap(self.reservations@)
    }

    pub closed spec fn capabilities_view(self) -> Map<Seq<char>, GpuCapabilities> {
        pmap(self.capabilities@)
    }

    pub closed spec fn diagnostic_text_view(self) -> Seq<char> {
        self.diagnostic_text@
    }

    pub closed spec fn diagnostic_report_view(self) -> Option<DiagnosticReport> {
        self.diagnostic_report
    }

    /// The GPU selected in the panel.
    pub closed spec fn selected_gpu_view(self) -> Option<String> {
        self.selected_gpu
    }

    /// The VM name entered in the panel.
    pub closed spec fn selected_vm_view(self) -> String {
        self.selected_vm
    }

    pub closed spec fn active_tab_view(self) -> GpuTab {
        self.active_tab
    }

    /// The last message and the last error shown.
    pub closed spec fn messages_view(self) -> (Option<String>, Option<String>) {
        (self.last_message, self.last_error)
    }

    /// A panel over the manager that shows nothing yet.
    pub fn new(gpu_manager: GpuManager) -> (r: Self)
        ensures
            r.manager_view() == gpu_manager,
            r.gpus_view().len() == 0,
            r.groups_view().len() == 0,
            r.reservations_view() == Map::<Seq<char>, String>::empty(),
            r.capabilities_view() == Map::<Seq<char>, GpuCapabilities>::empty(),
            r.diagnostic_text_view().len() == 0,
            r.diagnostic_report_view() is None,
    {
        let r = GpuManagerGui {
            gpu_manager,
            selected_gpu: None,
            selected_vm: String::new(),
            active_tab: GpuTab::Manager,
            gpus: Vec::new(),
            iommu_groups: Vec::new(),
            reservations: Vec::new(),
            capabilities: Vec::new(),
            diagnostic_text: String::new(),
            diagnostic_report: None,
            last_message: None,
            last_error: None,
        };
        assert(r.groups_view() =~= Seq::<(u32, Seq<Seq<char>>)>::empty());
        assert(pmap(r.reservations@) =~= Map::<Seq<char>, String>::empty());
        assert(pmap(r.capabilities@) =~= Map::<Seq<char>, GpuCapabilities>::empty());
        r
    }

    /// Discovers the GPUs again (a failed discovery leaves what it found)
    /// and caches what the panel shows: the GPUs, their IOMMU groups, the
    /// reservations and the capabilities of each GPU that has some.
    pub fn refresh(&mut self, snap: &PciHostSnapshot)
        ensures
            discovered_from(old(self).manager_view(), final(self).manager_view(), *snap),
            ({
                let m = final(self).manager_view();
                &&& final(self).gpus_view() == m.gpus_view()
                &&& final(self).groups_view() == group_map(m.gpus_view())
                &&& final(self).reservations_view() == m.reservations_view()
                &&& final(self).capabilities_view() == caps_of_gpus(m.gpus_view(), m.caps_view())
            }),
            final(self).diagnostic_report_view() == old(self).diagnostic_report_view(),
            final(self).diagnostic_text_view() == old(self).diagnostic_text_view(),
    {
        let _ = self.gpu_manager.discover(snap);
        let mut gpus: Vec<PciDevice> = Vec::new();
        let listed = self.gpu_manager.list_gpus();
        let mut i: usize = 0;
        while i < listed.len()
            invariant
                i <= listed.len(),
                gpus@ == listed@.take(i as int),
            decreases listed.len() - i,
        {
            gpus.push(listed[i].duplicate());
            assert(gpus@ =~= listed@.take(i + 1));
            i += 1;
        }
        assert(listed@.take(listed.len() as int) =~= listed@);
        let groups = groups_of(&gpus);
        let mut reservations: Vec<(String, String)> = Vec::new();
        let res = self.gpu_manager.get_reservations();
        let mut k: usize = 0;
        while k < res.len()
            invariant
                k <= res.len(),
                reservations@ == res@.take(k as int),
            decreases res.len() - k,
        {
            reservations.push((res[k].0.clone(), res[k].1.clone()));
            assert(reservations@ =~= res@.take(k + 1));
            k += 1;
        }
        assert(res@.take(res.len() as int) =~= res@);
        let mut caps: Vec<(String, GpuCapabilities)> = Vec::new();
        let mut j: usize = 0;
        assert(pmap(caps@) =~= caps_of_gpus(gpus@.take(0), self.gpu_manager.caps_view()));
        while j < gpus.len()
            invariant
                j <= gpus.len(),
                keys_distinct(caps@),
                pmap(caps@) == caps_of_gpus(gpus@.take(j as int), self.gpu_manager.caps_view()),
            decreases gpus.len() - j,
        {
            assert(gpus@.take(j + 1).drop_last() =~= gpus@.take(j as int));
            assert(gpus@.take(j + 1).last() == gpus@[j as int]);
            if let Some(c) = self.gpu_manager.capabilities_for(gpus[j].address.as_str()) {
                put(&mut caps, gpus[j].address.clone(), c.duplicate());
            }
            j += 1;
        }
        assert(gpus@.take(gpus.len() as int) =~= gpus@);
        self.gpus = gpus;
        self.iommu_groups = groups;
        assert(self.groups_view() =~= group_map(self.gpu_manager.gpus_view()));
        self.reservations = reservations;
        self.capabilities = caps;
    }

    /// Runs the doctor on the host and keeps its report and the report's text.
    pub fn run_diagnostics(&mut self, doctor: &GpuDoctor, probe: &HostProbe)
        ensures
            final(self).diagnostic_report_view() matches Some(r) && final(self).diagnostic_text_view() == report_text(r)
                && r@ == crate::gpu_doctor::report_of(crate::gpu_doctor::checks_of(doctor.manager(), *probe)),
            final(self).manager_view() == old(self).manager_view(),
            final(self).gpus_view() == old(self).gpus_view(),
            final(self).groups_view() == old(self).groups_view(),
            final(self).reservations_view() == old(self).reservations_view(),
            final(self).capabilities_view() == old(self).capabilities_view(),
            final(self).selected_gpu_view() == old(self).selected_gpu_view(),
            final(self).selected_vm_view() == old(self).selected_vm_view(),
            final(self).active_tab_view() == old(self).active_tab_view(),
            final(self).messages_view() == old(self).messages_view(),
    {
        let report = doctor.diagnose(probe);
        self.diagnostic_text = format_report_output(&report);
        self.diagnostic_report = Some(report);
    }
}

/// The GPU manager panel in a window of its own.
pub struct GpuManagerWindow {
    gui: GpuManagerGui,
    open: bool,
}

impl GpuManagerWindow {
    pub closed spec fn gui_view(self) -> GpuManagerGui {
        self.gui
    }

    pub closed spec fn open_view(self) -> bool {
        self.open
    }

    /// An open window over the manager, its panel refreshed once.
    pub fn new(gpu_manager: GpuManager, snap: &PciHostSnapshot) -> (r: Self)
        ensures
            r.open_view(),
            discovered_from(gpu_manager, r.gui_view().manager_view(), *snap),
            ({
                let m = r.gui_view().manager_view();
                &&& r.gui_view().gpus_view() == m.gpus_view()
                &&& r.gui_view().groups_view() == group_map(m.gpus_view())
                &&& r.gui_view().reservations_view() == m.reservations_view()
                &&& r.gui_view().capabilities_view() == caps_of_gpus(m.gpus_view(), m.caps_view())
            }),
    {
        let mut gui = GpuManagerGui::new(gpu_manager);
        gui.refresh(snap);
        GpuManagerWindow { gui, open: true }
    }

    pub fn is_open(&self) -> (r: bool)
        ensures
            r == self.open_view(),
    {
        self.open
    }
}

} // verus!
