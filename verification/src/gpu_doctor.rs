//! GPU passthrough diagnostics: individual checks, the overall status, the printed report and a fix script.
use vstd::prelude::*;
use crate::gpu_passthrough::{GpuManager, IommuGroup, PciDevice, viable_count};
use crate::text::{
    all_digits, cat, dec, dec_string, contains, join, parse_uint, parse_uint_exec, split_either, split_either_exec,
    str_contains, str_eq, trim, trim_str, views, join_exec,
};

verus! {

// ---------------------------------------------------------------------------
// Version comparison
// ---------------------------------------------------------------------------

/// The numeric components of a version: the pieces between '.' and '-'
/// that read as 32-bit numbers, in order.
pub open spec fn version_parts(s: Seq<char>) -> Seq<nat> {
    split_either(s, '.', '-').filter_map(|p: Seq<char>| parse_uint(p, u32::MAX as nat))
}

/// `a` padded with zeros to length `n`.
pub open spec fn pad(a: Seq<nat>, n: nat) -> Seq<nat> {
    if a.len() >= n {
        a
    } else {
        a + Seq::new((n - a.len()) as nat, |i: int| 0nat)
    }
}

/// Lexicographic `a >= r` on sequences of equal length.
pub open spec fn lex_ge(a: Seq<nat>, r: Seq<nat>) -> bool
    decreases a.len(),
{
    if a.len() == 0 || r.len() == 0 {
        true
    } else if a[0] > r[0] {
        true
    } else if a[0] < r[0] {
        false
    } else {
        lex_ge(a.drop_first(), r.drop_first())
    }
}

/// Version `actual` is at least `required`: components compared in order,
/// the shorter padded with zeros; a requirement without components is always met.
pub open spec fn version_meets(actual: Seq<char>, required: Seq<char>) -> bool {
    let a = version_parts(actual);
    let r = version_parts(required);
    r.len() == 0 || {
        let n = if a.len() >= r.len() {
            a.len()
        } else {
            r.len()
        };
        lex_ge(pad(a, n), pad(r, n))
    }
}

fn version_components(s: &str) -> (r: Vec<u32>)
    ensures
        r@.map_values(|x: u32| x as nat) == version_parts(s@),
{
    let pieces = split_either_exec(s, '.', '-');
    let ghost ps = split_either(s@, '.', '-');
    let mut r: Vec<u32> = Vec::new();
    let mut i: usize = 0;
    while i < pieces.len()
        invariant
            views(pieces@) == ps,
            i <= pieces.len(),
            r@.map_values(|x: u32| x as nat) == ps.take(i as int).filter_map(
                |p: Seq<char>| parse_uint(p, u32::MAX as nat),
            ),
        decreases pieces.len() - i,
    {
        assert(ps.take(i + 1).drop_last() =~= ps.take(i as int));
        assert(ps.take(i + 1).last() == pieces@[i as int]@);
        let ghost before = r@;
        match parse_uint_exec(pieces[i].as_str(), 4294967295) {
            Some(v) => {
                r.push(v as u32);
                assert(r@.map_values(|x: u32| x as nat) =~= before.map_values(|x: u32| x as nat)
                    + seq![v as nat]);
            },
            None => {},
        }
        i += 1;
    }
    assert(ps.take(pieces.len() as int) =~= ps);
    r
}

fn pad_exec(a: &mut Vec<u32>, n: usize)
    ensures
        final(a)@.map_values(|x: u32| x as nat) == pad(old(a)@.map_values(|x: u32| x as nat), n as nat),
{
    let ghost a0 = a@.map_values(|x: u32| x as nat);
    let ghost len0 = a@.len();
    if a.len() >= n {
        return;
    }
    while a.len() < n
        invariant
            len0 <= a.len() <= n,
            len0 < n,
            a@.map_values(|x: u32| x as nat) == a0 + Seq::new(
                (a.len() - len0) as nat,
                |i: int| 0nat,
            ),
            a0.len() == len0,
        decreases n - a.len(),
    {
        let ghost before = a@.map_values(|x: u32| x as nat);
        let ghost k = (a.len() - len0) as nat;
        a.push(0);
        assert(a@.map_values(|x: u32| x as nat) =~= before.push(0nat));
        assert(before.push(0nat) =~= a0 + Seq::new(k + 1, |i: int| 0nat));
    }
}

/// Whether version `actual` is at least `required`.
pub fn version_meets_exec(actual: &str, required: &str) -> (r: bool)
    ensures
        r == version_meets(actual@, required@),
{
    let mut a = version_components(actual);
    let mut q = version_components(required);
    if q.len() == 0 {
        return true;
    }
    let n = if a.len() >= q.len() {
        a.len()
    } else {
        q.len()
    };
    pad_exec(&mut a, n);
    pad_exec(&mut q, n);
    let ghost pa = a@.map_values(|x: u32| x as nat);
    let ghost pq = q@.map_values(|x: u32| x as nat);
    assert(pa.len() == n && pq.len() == n);
    let mut i: usize = 0;
    assert(pa.skip(0) =~= pa && pq.skip(0) =~= pq);
    while i < n
        invariant
            pa == a@.map_values(|x: u32| x as nat),
            pq == q@.map_values(|x: u32| x as nat),
            pa.len() == n && pq.len() == n,
            i <= n,
            lex_ge(pa, pq) == lex_ge(pa.skip(i as int), pq.skip(i as int)),
            version_meets(actual@, required@) == lex_ge(pa, pq),
        decreases n - i,
    {
        assert(pa.skip(i as int)[0] == a@[i as int] as nat);
        assert(pq.skip(i as int)[0] == q@[i as int] as nat);
        if a[i] > q[i] {
            return true;
        } else if a[i] < q[i] {
            return false;
        }
        assert(pa.skip(i as int).drop_first() =~= pa.skip(i + 1));
        assert(pq.skip(i as int).drop_first() =~= pq.skip(i + 1));
        i += 1;
    }
    true
}

proof fn lemma_lex_ge_refl(a: Seq<nat>)
    ensures
        lex_ge(a, a),
    decreases a.len(),
{
    if a.len() > 0 {
        lemma_lex_ge_refl(a.drop_first());
    }
}

proof fn lemma_lex_ge_total(a: Seq<nat>, r: Seq<nat>)
    ensures
        lex_ge(a, r) || lex_ge(r, a),
    decreases a.len(),
{
    if a.len() > 0 && r.len() > 0 && a[0] == r[0] {
        lemma_lex_ge_total(a.drop_first(), r.drop_first());
    }
}

proof fn lemma_lex_ge_trans(a: Seq<nat>, b: Seq<nat>, c: Seq<nat>)
    requires
        a.len() == b.len() == c.len(),
        lex_ge(a, b),
        lex_ge(b, c),
    ensures
        lex_ge(a, c),
    decreases a.len(),
{
    if a.len() > 0 && a[0] == b[0] && b[0] == c[0] {
        lemma_lex_ge_trans(a.drop_first(), b.drop_first(), c.drop_first());
    }
}


/// Comparing two equal-length sequences extended by the same tail gives the
/// comparison of the sequences.
proof fn lemma_lex_ge_tail(p: Seq<nat>, q: Seq<nat>, z: Seq<nat>)
    requires
        p.len() == q.len(),
    ensures
        lex_ge(p + z, q + z) == lex_ge(p, q),
    decreases p.len(),
{
    if p.len() == 0 {
        assert(p + z =~= z);
        assert(q + z =~= z);
        lemma_lex_ge_refl(z);
    } else {
        assert((p + z).drop_first() =~= p.drop_first() + z);
        assert((q + z).drop_first() =~= q.drop_first() + z);
        lemma_lex_ge_tail(p.drop_first(), q.drop_first(), z);
    }
}

/// Every sequence is at least the zeros of its length.
proof fn lemma_lex_ge_zeros(a: Seq<nat>, n: nat)
    requires
        a.len() == n,
    ensures
        lex_ge(a, Seq::new(n, |i: int| 0nat)),
    decreases n,
{
    if n > 0 {
        assert(Seq::new(n, |i: int| 0nat).drop_first() =~= Seq::new((n - 1) as nat, |i: int| 0nat));
        lemma_lex_ge_zeros(a.drop_first(), (n - 1) as nat);
    }
}

/// Padding further does not change the comparison.
proof fn lemma_pad_more(a: Seq<nat>, b: Seq<nat>, n: nat, m: nat)
    requires
        a.len() <= n,
        b.len() <= n,
        n <= m,
    ensures
        lex_ge(pad(a, n), pad(b, n)) == lex_ge(pad(a, m), pad(b, m)),
{
    let z = Seq::new((m - n) as nat, |i: int| 0nat);
    assert(pad(a, m) =~= pad(a, n) + z);
    assert(pad(b, m) =~= pad(b, n) + z);
    lemma_lex_ge_tail(pad(a, n), pad(b, n), z);
}

/// `a` meets `b` exactly when, both padded to `n` (at least their lengths),
/// `a` is not smaller, or `b` has no components.
proof fn lemma_meets_at(a: Seq<char>, b: Seq<char>, n: nat)
    requires
        version_parts(a).len() <= n,
        version_parts(b).len() <= n,
    ensures
        version_meets(a, b) ==> lex_ge(pad(version_parts(a), n), pad(version_parts(b), n)),
        version_parts(b).len() > 0 ==> (lex_ge(pad(version_parts(a), n), pad(version_parts(b), n))
            ==> version_meets(a, b)),
{
    let x = version_parts(a);
    let y = version_parts(b);
    let k = if x.len() >= y.len() {
        x.len()
    } else {
        y.len()
    };
    if y.len() == 0 {
        assert(pad(y, n) =~= Seq::new(n, |i: int| 0nat));
        lemma_lex_ge_zeros(pad(x, n), n);
    } else {
        lemma_pad_more(x, y, k, n);
    }
}

/// Meeting a version requirement is transitive: a version that meets one
/// which meets a requirement meets that requirement.
pub proof fn law_version_meets_transitive(a: Seq<char>, b: Seq<char>, c: Seq<char>)
    requires
        version_meets(a, b),
        version_meets(b, c),
    ensures
        version_meets(a, c),
{
    let n = version_parts(a).len() + version_parts(b).len() + version_parts(c).len();
    lemma_meets_at(a, b, n);
    lemma_meets_at(b, c, n);
    lemma_meets_at(a, c, n);
    if version_parts(c).len() > 0 {
        lemma_lex_ge_trans(pad(version_parts(a), n), pad(version_parts(b), n), pad(version_parts(c), n));
    }
}

/// Every version meets itself as a requirement.
pub proof fn law_version_meets_reflexive(v: Seq<char>)
    ensures
        version_meets(v, v),
{
    let a = version_parts(v);
    lemma_lex_ge_refl(pad(a, a.len()));
}

/// Of two versions, one always meets the other.
pub proof fn law_version_meets_total(a: Seq<char>, b: Seq<char>)
    ensures
        version_meets(a, b) || version_meets(b, a),
{
    let x = version_parts(a);
    let y = version_parts(b);
    let n = if x.len() >= y.len() {
        x.len()
    } else {
        y.len()
    };
    let m = if y.len() >= x.len() {
        y.len()
    } else {
        x.len()
    };
    assert(n == m);
    lemma_lex_ge_total(pad(x, n), pad(y, n));
}


// ---------------------------------------------------------------------------
// Report model
// ---------------------------------------------------------------------------

#[derive(Debug)]
pub struct DiagnosticReport {
    pub overall_status: SystemStatus,
    pub checks: Vec<DiagnosticCheck>,
    pub recommendations: Vec<String>,
    pub warnings: Vec<String>,
    pub errors: Vec<String>,
}

#[derive(Debug, Clone, Copy, PartialEq, Eq, Structural)]
pub enum SystemStatus {
    Ready,
    NeedsConfiguration,
    NotSupported,
}

#[derive(Debug)]
pub struct DiagnosticCheck {
    pub name: String,
    pub status: CheckStatus,
    pub message: String,
    pub fix_command: Option<String>,
}

#[derive(Debug, Clone, Copy, PartialEq, Eq, Structural)]
pub enum CheckStatus {
    Pass,
    Warn,
    Fail,
}

/// What a check says, with text as character sequences.
pub struct CheckView {
    pub name: Seq<char>,
    pub status: CheckStatus,
    pub message: Seq<char>,
    pub fix: Option<Seq<char>>,
}

impl View for DiagnosticCheck {
    type V = CheckView;

    open spec fn view(&self) -> CheckView {
        CheckView {
            name: self.name@,
            status: self.status,
            message: self.message@,
            fix: crate::gpu_passthrough::opt_view(self.fix_command),
        }
    }
}

/// What a report says, with text as character sequences.
pub struct ReportView {
    pub overall_status: SystemStatus,
    pub checks: Seq<CheckView>,
    pub recommendations: Seq<Seq<char>>,
    pub warnings: Seq<Seq<char>>,
    pub errors: Seq<Seq<char>>,
}

impl View for DiagnosticReport {
    type V = ReportView;

    open spec fn view(&self) -> ReportView {
        ReportView {
            overall_status: self.overall_status,
            checks: self.checks@.map_values(|c: DiagnosticCheck| c@),
            recommendations: views(self.recommendations@),
            warnings: views(self.warnings@),
            errors: views(self.errors@),
        }
    }
}

pub open spec fn cv(name: Seq<char>, status: CheckStatus, message: Seq<char>, fix: Option<Seq<char>>) -> CheckView {
    CheckView { name, status, message, fix }
}

fn mk_check(name: &str, status: CheckStatus, message: String, fix: Option<String>) -> (r: DiagnosticCheck)
    ensures
        r@ == cv(name@, status, message@, crate::gpu_passthrough::opt_view(fix)),
{
    DiagnosticCheck { name: name.to_owned(), status, message, fix_command: fix }
}

/// The system's status: a failed check makes it unfit for passthrough, a
/// warning asks for setup, and with neither it is ready.
pub open spec fn overall_of(checks: Seq<CheckView>) -> SystemStatus {
    if checks.filter(|c: CheckView| c.status == CheckStatus::Fail).len() > 0 {
        SystemStatus::NotSupported
    } else if checks.filter(|c: CheckView| c.status == CheckStatus::Warn).len() > 0 {
        SystemStatus::NeedsConfiguration
    } else {
        SystemStatus::Ready
    }
}

pub open spec fn error_line(c: CheckView) -> Option<Seq<char>> {
    if c.status == CheckStatus::Fail {
        Some("\u{274c} "@ + c.name + ": "@ + c.message)
    } else {
        None
    }
}

pub open spec fn warning_line(c: CheckView) -> Option<Seq<char>> {
    if c.status == CheckStatus::Warn {
        Some("\u{26a0}\u{fe0f}  "@ + c.name + ": "@ + c.message)
    } else {
        None
    }
}

pub open spec fn recommendation_line(c: CheckView) -> Option<Seq<char>> {
    match c.fix {
        Some(f) => if c.status == CheckStatus::Fail {
            Some("Run: "@ + f)
        } else if c.status == CheckStatus::Warn {
            Some("Optional: "@ + f)
        } else {
            None
        },
        None => None,
    }
}

/// The report made of the given checks.
pub open spec fn report_of(checks: Seq<CheckView>) -> ReportView {
    ReportView {
        overall_status: overall_of(checks),
        checks,
        recommendations: checks.filter_map(|c: CheckView| recommendation_line(c)),
        warnings: checks.filter_map(|c: CheckView| warning_line(c)),
        errors: checks.filter_map(|c: CheckView| error_line(c)),
    }
}

/// The report of a list of checks.
pub fn assemble_report(checks: Vec<DiagnosticCheck>) -> (r: DiagnosticReport)
    ensures
        r@ == report_of(checks@.map_values(|c: DiagnosticCheck| c@)),
{
    let ghost cs = checks@.map_values(|c: DiagnosticCheck| c@);
    let mut failures: usize = 0;
    let mut warns: usize = 0;
    let mut errors: Vec<String> = Vec::new();
    let mut warnings: Vec<String> = Vec::new();
    let mut recommendations: Vec<String> = Vec::new();
    let mut i: usize = 0;
    while i < checks.len()
        invariant
            cs == checks@.map_values(|c: DiagnosticCheck| c@),
            i <= checks.len(),
            failures == cs.take(i as int).filter(|c: CheckView| c.status == CheckStatus::Fail).len(),
            warns == cs.take(i as int).filter(|c: CheckView| c.status == CheckStatus::Warn).len(),
            failures <= i,
            warns <= i,
            views(errors@) == cs.take(i as int).filter_map(|c: CheckView| error_line(c)),
            views(warnings@) == cs.take(i as int).filter_map(|c: CheckView| warning_line(c)),
            views(recommendations@) == cs.take(i as int).filter_map(
                |c: CheckView| recommendation_line(c),
            ),
        decreases checks.len() - i,
    {
        proof {
            reveal_with_fuel(Seq::<_>::filter, 1);
            assert(cs.take(i + 1).drop_last() =~= cs.take(i as int));
            assert(cs.take(i + 1).last() == checks@[i as int]@);
        }
        let c = &checks[i];
        let ghost e0 = views(errors@);
        let ghost w0 = views(warnings@);
        let ghost r0 = views(recommendations@);
        match c.status {
            CheckStatus::Fail => {
                failures += 1;
                let line = cat(cat(cat("\u{274c} ", c.name.as_str()).as_str(), ": ").as_str(), c.message.as_str());
                errors.push(line);
                assert(views(errors@) =~= e0 + seq![error_line(c@).unwrap()]);
                if let Some(fix) = &c.fix_command {
                    recommendations.push(cat("Run: ", fix.as_str()));
                    assert(views(recommendations@) =~= r0 + seq![recommendation_line(c@).unwrap()]);
                }
            },
            CheckStatus::Warn => {
                warns += 1;
                let line = cat(cat(cat("\u{26a0}\u{fe0f}  ", c.name.as_str()).as_str(), ": ").as_str(), c.message.as_str());
                warnings.push(line);
                assert(views(warnings@) =~= w0 + seq![warning_line(c@).unwrap()]);
                if let Some(fix) = &c.fix_command {
                    recommendations.push(cat("Optional: ", fix.as_str()));
                    assert(views(recommendations@) =~= r0 + seq![recommendation_line(c@).unwrap()]);
                }
            },
            CheckStatus::Pass => {},
        }
        i += 1;
    }
    assert(cs.take(checks.len() as int) =~= cs);
    let overall_status = if failures > 0 {
        SystemStatus::NotSupported
    } else if warns > 0 {
        SystemStatus::NeedsConfiguration
    } else {
        SystemStatus::Ready
    };
    DiagnosticReport { overall_status, checks, recommendations, warnings, errors }
}

/// A filter keeps something exactly when some element passes it.
proof fn lemma_filter_nonempty(s: Seq<CheckView>, pred: spec_fn(CheckView) -> bool)
    ensures
        s.filter(pred).len() > 0 <==> exists|i: int| 0 <= i < s.len() && pred(#[trigger] s[i]),
{
    if exists|i: int| 0 <= i < s.len() && pred(#[trigger] s[i]) {
        let i = choose|i: int| 0 <= i < s.len() && pred(#[trigger] s[i]);
        s.lemma_filter_contains(pred, i);
    }
    if s.filter(pred).len() > 0 {
        let x = s.filter(pred)[0];
        s.lemma_filter_pred(pred, 0);
        assert(s.filter(pred).contains(x));
        s.lemma_filter_contains_rev(pred, x);
        let j = choose|j: int| 0 <= j < s.len() && s[j] == x;
        assert(pred(s[j]));
    }
}

/// The overall status of a report: ready exactly when every check passed,
/// unfit for passthrough exactly when some check failed, and in need of
/// setup exactly when nothing failed and some check warned.
pub proof fn law_overall_status(checks: Seq<CheckView>)
    ensures
        report_of(checks).overall_status == SystemStatus::Ready <==> (forall|i: int|
            0 <= i < checks.len() ==> (#[trigger] checks[i]).status == CheckStatus::Pass),
        report_of(checks).overall_status == SystemStatus::NotSupported <==> (exists|i: int|
            0 <= i < checks.len() && (#[trigger] checks[i]).status == CheckStatus::Fail),
        report_of(checks).overall_status == SystemStatus::NeedsConfiguration <==> ((forall|i: int|
            0 <= i < checks.len() ==> (#[trigger] checks[i]).status != CheckStatus::Fail)
            && (exists|i: int| 0 <= i < checks.len() && (#[trigger] checks[i]).status == CheckStatus::Warn)),
{
    let f = |c: CheckView| c.status == CheckStatus::Fail;
    let w = |c: CheckView| c.status == CheckStatus::Warn;
    lemma_filter_nonempty(checks, f);
    lemma_filter_nonempty(checks, w);
    assert(checks.filter(f) == checks.filter(|c: CheckView| c.status == CheckStatus::Fail));
    assert(checks.filter(w) == checks.filter(|c: CheckView| c.status == CheckStatus::Warn));
}

// ---------------------------------------------------------------------------
// Individual checks
// ---------------------------------------------------------------------------

/// IOMMU: the number of entries of `/sys/kernel/iommu_groups`, or none when it is missing.
pub open spec fn iommu_check(groups: Option<usize>) -> CheckView {
    match groups {
        Some(n) => cv(
            "IOMMU"@,
            CheckStatus::Pass,
            "IOMMU enabled ("@ + crate::text::dec(n as nat) + " groups detected)"@,
            None,
        ),
        None => cv(
            "IOMMU"@,
            CheckStatus::Fail,
            "IOMMU not enabled or not detected"@,
            Some("Add 'intel_iommu=on' or 'amd_iommu=on' to kernel parameters"@),
        ),
    }
}

fn check_iommu(groups: Option<usize>) -> (r: DiagnosticCheck)
    ensures
        r@ == iommu_check(groups),
{
    match groups {
        Some(n) => {
            let m = cat(crate::text::cat_dec("IOMMU enabled (", n as u64).as_str(), " groups detected)");
            mk_check("IOMMU", CheckStatus::Pass, m, None)
        },
        None => mk_check(
            "IOMMU",
            CheckStatus::Fail,
            "IOMMU not enabled or not detected".to_owned(),
            Some("Add 'intel_iommu=on' or 'amd_iommu=on' to kernel parameters".to_owned()),
        ),
    }
}

/// Hardware virtualization, from the text of `/proc/cpuinfo`.
pub open spec fn virtualization_check(cpuinfo: Seq<char>) -> CheckView {
    let vmx = contains(cpuinfo, "vmx"@);
    let svm = contains(cpuinfo, "svm"@);
    if vmx || svm {
        cv(
            "Virtualization"@,
            CheckStatus::Pass,
            (if vmx {
                "Intel VT-x"@
            } else {
                "AMD-V"@
            }) + " enabled in CPU"@,
            None,
        )
    } else {
        cv(
            "Virtualization"@,
            CheckStatus::Fail,
            "Hardware virtualization not detected"@,
            Some("Enable VT-x/AMD-V in BIOS/UEFI settings"@),
        )
    }
}

fn check_virtualization(cpuinfo: &str) -> (r: DiagnosticCheck)
    ensures
        r@ == virtualization_check(cpuinfo@),
{
    let vmx = str_contains(cpuinfo, "vmx");
    let svm = str_contains(cpuinfo, "svm");
    if vmx || svm {
        let tech = if vmx {
            "Intel VT-x"
        } else {
            "AMD-V"
        };
        mk_check("Virtualization", CheckStatus::Pass, cat(tech, " enabled in CPU"), None)
    } else {
        mk_check(
            "Virtualization",
            CheckStatus::Fail,
            "Hardware virtualization not detected".to_owned(),
            Some("Enable VT-x/AMD-V in BIOS/UEFI settings".to_owned()),
        )
    }
}

/// VFIO modules, from the names under `/sys/module`.
pub open spec fn vfio_check(loaded: Seq<Seq<char>>) -> CheckView {
    let missing = crate::gpu_passthrough::missing_modules(loaded);
    if missing.len() == 0 {
        cv("VFIO Modules"@, CheckStatus::Pass, "All VFIO modules loaded"@, None)
    } else {
        cv(
            "VFIO Modules"@,
            CheckStatus::Fail,
            "Missing modules: "@ + join(missing, ", "@),
            Some("modprobe "@ + join(missing, " && modprobe "@)),
        )
    }
}

fn check_vfio_modules(manager: &GpuManager, loaded: &Vec<String>) -> (r: DiagnosticCheck)
    ensures
        r@ == vfio_check(views(loaded@)),
{
    let missing = manager.missing_vfio_modules(loaded);
    if missing.len() == 0 {
        mk_check("VFIO Modules", CheckStatus::Pass, "All VFIO modules loaded".to_owned(), None)
    } else {
        mk_check(
            "VFIO Modules",
            CheckStatus::Fail,
            cat("Missing modules: ", join_exec(&missing, ", ").as_str()),
            Some(cat("modprobe ", join_exec(&missing, " && modprobe ").as_str())),
        )
    }
}

/// The NVIDIA driver check: the open kernel module's version (preferred) or
/// the proprietary driver's; RTX 50-series GPUs need 560.0 and kernel 6.9,
/// Ada Lovelace GPUs prefer 545.0.
pub open spec fn nvidia_check(
    open_version: Option<Seq<char>>,
    proprietary_version: Option<Seq<char>>,
    has_blackwell: bool,
    kernel: Option<Seq<char>>,
) -> CheckView {
    let version = match open_version {
        Some(v) => Some(v),
        None => proprietary_version,
    };
    let (status0, msg0, fix0) = match open_version {
        Some(v) => (
            CheckStatus::Pass,
            "NVIDIA Open Kernel Module "@ + v + " detected (recommended)"@,
            None::<Seq<char>>,
        ),
        None => match proprietary_version {
            Some(v) => (
                CheckStatus::Warn,
                "Proprietary NVIDIA driver "@ + v + " detected"@,
                Some(
                    "Consider switching to nvidia-open for better passthrough support: yay -S nvidia-open"@,
                ),
            ),
            None => (
                CheckStatus::Warn,
                "No NVIDIA driver detected"@,
                Some("Install nvidia-open: yay -S nvidia-open nvidia-open-dkms"@),
            ),
        },
    };
    if has_blackwell {
        let (status1, msg1, fix1) = match version {
            Some(a) => if version_meets(a, "560.0"@) {
                (status0, msg0 + " \u{2014} meets RTX 50-series requirement (560.0+)"@, fix0)
            } else {
                (
                    CheckStatus::Warn,
                    "Driver "@ + a + " detected; RTX 50-series requires 560.0 or newer"@,
                    Some("Update to NVIDIA driver 560+ (nvidia-open recommended)"@),
                )
            },
            None => (
                CheckStatus::Warn,
                "RTX 50-series GPU detected but driver information unavailable (need 560.0+)"@,
                Some("Install nvidia-open 560+ or the latest proprietary driver"@),
            ),
        };
        let (msg2, fix2) = match kernel {
            Some(k) => if !version_meets(k, "6.9"@) {
                (
                    msg1 + "; kernel "@ + trim(k) + " detected (6.9+ recommended)"@,
                    match fix1 {
                        Some(f) => Some(f),
                        None => Some("Upgrade to Linux kernel 6.9 or newer"@),
                    },
                )
            } else {
                (msg1, fix1)
            },
            None => (msg1, fix1),
        };
        cv(
            "NVIDIA Driver"@,
            status1,
            msg2 + "; enable TCC mode for low-latency consoles (Looking Glass)"@,
            fix2,
        )
    } else {
        let msg1 = match version {
            Some(v) => if !version_meets(v, "545.0"@) {
                msg0 + "; Ada Lovelace GPUs prefer driver 545.0+"@
            } else {
                msg0
            },
            None => msg0,
        };
        cv("NVIDIA Driver"@, status0, msg1, fix0)
    }
}

fn check_nvidia_drivers(
    open_version: &Option<String>,
    proprietary_version: &Option<String>,
    has_blackwell: bool,
    kernel: &Option<String>,
) -> (r: DiagnosticCheck)
    ensures
        r@ == nvidia_check(
            crate::gpu_passthrough::opt_view(*open_version),
            crate::gpu_passthrough::opt_view(*proprietary_version),
            has_blackwell,
            crate::gpu_passthrough::opt_view(*kernel),
        ),
{
    let version: Option<String> = match open_version {
        Some(v) => Some(v.clone()),
        None => crate::gpu_passthrough::clone_opt(proprietary_version),
    };
    let mut status;
    let mut message: String;
    let mut fix: Option<String>;
    match open_version {
        Some(v) => {
            status = CheckStatus::Pass;
            message = cat(cat("NVIDIA Open Kernel Module ", v.as_str()).as_str(), " detected (recommended)");
            fix = None;
        },
        None => match proprietary_version {
            Some(v) => {
                status = CheckStatus::Warn;
                message = cat(cat("Proprietary NVIDIA driver ", v.as_str()).as_str(), " detected");
                fix = Some(
                    "Consider switching to nvidia-open for better passthrough support: yay -S nvidia-open".to_owned(),
                );
            },
            None => {
                status = CheckStatus::Warn;
                message = "No NVIDIA driver detected".to_owned();
                fix = Some("Install nvidia-open: yay -S nvidia-open nvidia-open-dkms".to_owned());
            },
        },
    }
    if has_blackwell {
        match &version {
            Some(a) => {
                if version_meets_exec(a.as_str(), "560.0") {
                    message.append(" \u{2014} meets RTX 50-series requirement (560.0+)");
                } else {
                    status = CheckStatus::Warn;
                    message = cat(cat("Driver ", a.as_str()).as_str(), " detected; RTX 50-series requires 560.0 or newer");
                    fix = Some("Update to NVIDIA driver 560+ (nvidia-open recommended)".to_owned());
                }
            },
            None => {
                status = CheckStatus::Warn;
                message = "RTX 50-series GPU detected but driver information unavailable (need 560.0+)".to_owned();
                fix = Some("Install nvidia-open 560+ or the latest proprietary driver".to_owned());
            },
        }
        if let Some(k) = kernel {
            if !version_meets_exec(k.as_str(), "6.9") {
                message.append("; kernel ");
                message.append(trim_str(k.as_str()).as_str());
                message.append(" detected (6.9+ recommended)");
                if fix.is_none() {
                    fix = Some("Upgrade to Linux kernel 6.9 or newer".to_owned());
                }
            }
        }
        message.append("; enable TCC mode for low-latency consoles (Looking Glass)");
    } else {
        if let Some(v) = &version {
            if !version_meets_exec(v.as_str(), "545.0") {
                message.append("; Ada Lovelace GPUs prefer driver 545.0+");
            }
        }
    }
    let r = mk_check("NVIDIA Driver", status, message, fix);
    assert(r@ =~= nvidia_check(
        crate::gpu_passthrough::opt_view(*open_version),
        crate::gpu_passthrough::opt_view(*proprietary_version),
        has_blackwell,
        crate::gpu_passthrough::opt_view(*kernel),
    ));
    r
}

/// "<device name> (<address>)" for a GPU.
pub open spec fn gpu_entry(d: PciDevice) -> Seq<char> {
    d.device_name@ + " ("@ + d.address@ + ")"@
}

pub open spec fn gpu_detection_check(gpus: Seq<PciDevice>) -> CheckView {
    if gpus.len() == 0 {
        cv(
            "GPU Detection"@,
            CheckStatus::Fail,
            "No GPUs detected"@,
            Some("Ensure GPU is properly seated and powered"@),
        )
    } else {
        cv(
            "GPU Detection"@,
            CheckStatus::Pass,
            "Detected "@ + crate::text::dec(gpus.len()) + " GPU(s): "@ + join(
                gpus.map_values(|d: PciDevice| gpu_entry(d)),
                ", "@,
            ),
            None,
        )
    }
}

fn check_gpu_detection(gpus: &[PciDevice]) -> (r: DiagnosticCheck)
    ensures
        r@ == gpu_detection_check(gpus@),
{
    if gpus.len() == 0 {
        return mk_check(
            "GPU Detection",
            CheckStatus::Fail,
            "No GPUs detected".to_owned(),
            Some("Ensure GPU is properly seated and powered".to_owned()),
        );
    }
    let mut entries: Vec<String> = Vec::new();
    let mut i: usize = 0;
    while i < gpus.len()
        invariant
            i <= gpus.len(),
            views(entries@) == gpus@.take(i as int).map_values(|d: PciDevice| gpu_entry(d)),
        decreases gpus.len() - i,
    {
        let ghost before = views(entries@);
        let e = cat(
            cat(cat(gpus[i].device_name.as_str(), " (").as_str(), gpus[i].address.as_str()).as_str(),
            ")",
        );
        entries.push(e);
        assert(views(entries@) =~= before.push(gpu_entry(gpus@[i as int])));
        assert(gpus@.take(i + 1).map_values(|d: PciDevice| gpu_entry(d)) =~= gpus@.take(
            i as int,
        ).map_values(|d: PciDevice| gpu_entry(d)).push(gpu_entry(gpus@[i as int])));
        i += 1;
    }
    assert(gpus@.take(gpus@.len() as int) =~= gpus@);
    let m = cat(
        cat(crate::text::cat_dec("Detected ", gpus.len() as u64).as_str(), " GPU(s): ").as_str(),
        join_exec(&entries, ", ").as_str(),
    );
    mk_check("GPU Detection", CheckStatus::Pass, m, None)
}

pub open spec fn iommu_groups_check(groups: Seq<IommuGroup>) -> CheckView {
    let v = viable_count(groups);
    if v == 0 {
        cv(
            "IOMMU Groups"@,
            CheckStatus::Fail,
            "No viable IOMMU groups for GPU passthrough"@,
            Some("Check BIOS settings for ACS override or PCIe configuration"@),
        )
    } else if v < groups.len() {
        cv(
            "IOMMU Groups"@,
            CheckStatus::Warn,
            crate::text::dec(v) + "/"@ + crate::text::dec(groups.len())
                + " IOMMU groups are viable for passthrough"@,
            Some("Some GPUs share IOMMU groups - consider ACS override patch"@),
        )
    } else {
        cv(
            "IOMMU Groups"@,
            CheckStatus::Pass,
            "All "@ + crate::text::dec(v) + " IOMMU groups are viable"@,
            None,
        )
    }
}

fn check_iommu_groups(groups: &[IommuGroup]) -> (r: DiagnosticCheck)
    ensures
        r@ == iommu_groups_check(groups@),
{
    let v = crate::gpu_passthrough::count_viable_groups(groups);
    if v == 0 {
        mk_check(
            "IOMMU Groups",
            CheckStatus::Fail,
            "No viable IOMMU groups for GPU passthrough".to_owned(),
            Some("Check BIOS settings for ACS override or PCIe configuration".to_owned()),
        )
    } else if v < groups.len() {
        let mut m = crate::text::dec_string(v as u64);
        m.append("/");
        crate::text::push_dec(&mut m, groups.len() as u64);
        m.append(" IOMMU groups are viable for passthrough");
        mk_check(
            "IOMMU Groups",
            CheckStatus::Warn,
            m,
            Some("Some GPUs share IOMMU groups - consider ACS override patch".to_owned()),
        )
    } else {
        let m = cat(crate::text::cat_dec("All ", v as u64).as_str(), " IOMMU groups are viable");
        mk_check("IOMMU Groups", CheckStatus::Pass, m, None)
    }
}

pub open spec fn nvbind_check(available: bool) -> CheckView {
    if available {
        cv("nvbind"@, CheckStatus::Pass, "nvbind GPU runtime available"@, None)
    } else {
        cv(
            "nvbind"@,
            CheckStatus::Warn,
            "nvbind not installed (optional for container GPU passthrough)"@,
            Some("Install nvbind: cargo install nvbind"@),
        )
    }
}

fn check_nvbind(available: bool) -> (r: DiagnosticCheck)
    ensures
        r@ == nvbind_check(available),
{
    if available {
        mk_check("nvbind", CheckStatus::Pass, "nvbind GPU runtime available".to_owned(), None)
    } else {
        mk_check(
            "nvbind",
            CheckStatus::Warn,
            "nvbind not installed (optional for container GPU passthrough)".to_owned(),
            Some("Install nvbind: cargo install nvbind".to_owned()),
        )
    }
}

/// The kernel command line's issues, in order.
pub open spec fn cmdline_issues(cmdline: Seq<char>) -> Seq<Seq<char>> {
    (if contains(cmdline, "intel_iommu=on"@) || contains(cmdline, "amd_iommu=on"@) {
        Seq::empty()
    } else {
        seq!["IOMMU not enabled in kernel parameters"@]
    }) + (if !contains(cmdline, "iommu=pt"@) {
        seq!["Consider adding iommu=pt for better performance"@]
    } else {
        Seq::empty()
    }) + (if contains(cmdline, "nouveau"@) && !contains(cmdline, "nouveau.modeset=0"@) {
        seq!["Nouveau driver may conflict with NVIDIA passthrough"@]
    } else {
        Seq::empty()
    })
}

pub open spec fn kernel_parameters_check(cmdline: Seq<char>) -> CheckView {
    let has_iommu = contains(cmdline, "intel_iommu=on"@) || contains(cmdline, "amd_iommu=on"@);
    let issues = cmdline_issues(cmdline);
    if issues.len() == 0 && has_iommu {
        cv(
            "Kernel Parameters"@,
            CheckStatus::Pass,
            "Kernel parameters properly configured"@,
            None,
        )
    } else {
        cv(
            "Kernel Parameters"@,
            if has_iommu {
                CheckStatus::Warn
            } else {
                CheckStatus::Fail
            },
            join(issues, "; "@),
            Some(
                "Edit /etc/default/grub and add: intel_iommu=on iommu=pt, then run: grub-mkconfig -o /boot/grub/grub.cfg"@,
            ),
        )
    }
}

fn check_kernel_parameters(cmdline: &str) -> (r: DiagnosticCheck)
    ensures
        r@ == kernel_parameters_check(cmdline@),
{
    let mut issues: Vec<String> = Vec::new();
    let has_iommu = str_contains(cmdline, "intel_iommu=on") || str_contains(cmdline, "amd_iommu=on");
    if !has_iommu {
        issues.push("IOMMU not enabled in kernel parameters".to_owned());
    }
    if !str_contains(cmdline, "iommu=pt") {
        issues.push("Consider adding iommu=pt for better performance".to_owned());
    }
    if str_contains(cmdline, "nouveau") && !str_contains(cmdline, "nouveau.modeset=0") {
        issues.push("Nouveau driver may conflict with NVIDIA passthrough".to_owned());
    }
    assert(views(issues@) =~= cmdline_issues(cmdline@));
    if issues.len() == 0 && has_iommu {
        mk_check(
            "Kernel Parameters",
            CheckStatus::Pass,
            "Kernel parameters properly configured".to_owned(),
            None,
        )
    } else {
        let status = if has_iommu {
            CheckStatus::Warn
        } else {
            CheckStatus::Fail
        };
        mk_check(
            "Kernel Parameters",
            status,
            join_exec(&issues, "; "),
            Some(
                "Edit /etc/default/grub and add: intel_iommu=on iommu=pt, then run: grub-mkconfig -o /boot/grub/grub.cfg".to_owned(),
            ),
        )
    }
}

/// The conflict line of a GPU bound to nouveau.
pub open spec fn nouveau_conflict(d: PciDevice) -> Option<Seq<char>> {
    match d.driver {
        Some(x) => if x@ == "nouveau"@ {
            Some(d.address@ + ": nouveau (conflicts with NVIDIA passthrough)"@)
        } else {
            None
        },
        None => None,
    }
}

pub open spec fn conflicting_drivers_check(gpus: Seq<PciDevice>) -> CheckView {
    let conflicts = gpus.filter_map(|d: PciDevice| nouveau_conflict(d));
    if conflicts.len() == 0 {
        cv("Driver Conflicts"@, CheckStatus::Pass, "No conflicting drivers detected"@, None)
    } else {
        cv(
            "Driver Conflicts"@,
            CheckStatus::Warn,
            "Conflicts: "@ + join(conflicts, ", "@),
            Some(
                "Blacklist nouveau: echo 'blacklist nouveau' | sudo tee /etc/modprobe.d/blacklist-nouveau.conf"@,
            ),
        )
    }
}

fn check_conflicting_drivers(gpus: &[PciDevice]) -> (r: DiagnosticCheck)
    ensures
        r@ == conflicting_drivers_check(gpus@),
{
    let mut conflicts: Vec<String> = Vec::new();
    let mut i: usize = 0;
    while i < gpus.len()
        invariant
            i <= gpus.len(),
            views(conflicts@) == gpus@.take(i as int).filter_map(|d: PciDevice| nouveau_conflict(d)),
        decreases gpus.len() - i,
    {
        assert(gpus@.take(i + 1).drop_last() =~= gpus@.take(i as int));
        let ghost before = views(conflicts@);
        if let Some(driver) = &gpus[i].driver {
            if str_eq(driver.as_str(), "nouveau") {
                conflicts.push(cat(gpus[i].address.as_str(), ": nouveau (conflicts with NVIDIA passthrough)"));
                assert(views(conflicts@) =~= before + seq![nouveau_conflict(gpus@[i as int]).unwrap()]);
            }
        }
        i += 1;
    }
    assert(gpus@.take(gpus@.len() as int) =~= gpus@);
    if conflicts.len() == 0 {
        mk_check("Driver Conflicts", CheckStatus::Pass, "No conflicting drivers detected".to_owned(), None)
    } else {
        mk_check(
            "Driver Conflicts",
            CheckStatus::Warn,
            cat("Conflicts: ", join_exec(&conflicts, ", ").as_str()),
            Some(
                "Blacklist nouveau: echo 'blacklist nouveau' | sudo tee /etc/modprobe.d/blacklist-nouveau.conf".to_owned(),
            ),
        )
    }
}

/// The GPUs whose PCI `resource` file exists.
pub open spec fn rebar_gpus(gpus: Seq<PciDevice>, with_resource: Seq<Seq<char>>) -> Seq<PciDevice> {
    gpus.filter(|d: PciDevice| with_resource.contains(d.address@))
}

pub open spec fn resizable_bar_check(gpus: Seq<PciDevice>, with_resource: Seq<Seq<char>>) -> CheckView {
    let n = rebar_gpus(gpus, with_resource).len();
    if n == 0 {
        cv(
            "Resizable BAR"@,
            CheckStatus::Warn,
            "Resizable BAR not detected (may impact performance on newer GPUs)"@,
            Some("Enable Resizable BAR in BIOS if supported"@),
        )
    } else {
        cv(
            "Resizable BAR"@,
            CheckStatus::Pass,
            "Resizable BAR available for "@ + crate::text::dec(n) + " GPU(s)"@,
            None,
        )
    }
}

fn check_resizable_bar(gpus: &[PciDevice], with_resource: &Vec<String>) -> (r: DiagnosticCheck)
    ensures
        r@ == resizable_bar_check(gpus@, views(with_resource@)),
{
    let ghost wr = views(with_resource@);
    let mut n: usize = 0;
    let mut i: usize = 0;
    while i < gpus.len()
        invariant
            wr == views(with_resource@),
            i <= gpus.len(),
            n == rebar_gpus(gpus@.take(i as int), wr).len(),
            n <= i,
        decreases gpus.len() - i,
    {
        proof {
            reveal_with_fuel(Seq::<_>::filter, 1);
            assert(gpus@.take(i + 1).drop_last() =~= gpus@.take(i as int));
        }
        if crate::gpu_passthrough::contains_text(with_resource, gpus[i].address.as_str()) {
            n += 1;
        }
        i += 1;
    }
    assert(gpus@.take(gpus@.len() as int) =~= gpus@);
    if n == 0 {
        mk_check(
            "Resizable BAR",
            CheckStatus::Warn,
            "Resizable BAR not detected (may impact performance on newer GPUs)".to_owned(),
            Some("Enable Resizable BAR in BIOS if supported".to_owned()),
        )
    } else {
        let m = cat(crate::text::cat_dec("Resizable BAR available for ", n as u64).as_str(), " GPU(s)");
        mk_check("Resizable BAR", CheckStatus::Pass, m, None)
    }
}

// ---------------------------------------------------------------------------
// The doctor
// ---------------------------------------------------------------------------

/// Host facts that the diagnostics read.
#[derive(Debug, Clone)]
pub struct HostProbe {
    /// Number of entries of `/sys/kernel/iommu_groups`, or none when it is missing
    pub iommu_group_count: Option<usize>,
    /// Text of `/proc/cpuinfo` (empty when unreadable)
    pub cpuinfo: String,
    /// Names present under `/sys/module`
    pub loaded_modules: Vec<String>,
    /// Trimmed `/sys/module/nvidia/version`, when readable
    pub nvidia_open_version: Option<String>,
    /// Trimmed driver version that nvidia-smi reports, when it succeeds
    pub nvidia_smi_version: Option<String>,
    /// Trimmed `uname -r`, when it succeeds
    pub kernel_version: Option<String>,
    /// Text of `/proc/cmdline` (empty when unreadable)
    pub cmdline: String,
    /// Addresses of GPUs whose `/sys/bus/pci/devices/<address>/resource` exists
    pub gpus_with_resource: Vec<String>,
}

/// GPU Doctor - diagnostics for GPU passthrough over a discovered GPU manager.
pub struct GpuDoctor {
    gpu_manager: GpuManager,
}

/// The ten checks, in order.
pub open spec fn checks_of(m: GpuManager, p: HostProbe) -> Seq<CheckView> {
    seq![
        iommu_check(p.iommu_group_count),
        virtualization_check(p.cpuinfo@),
        vfio_check(views(p.loaded_modules@)),
        nvidia_check(
            crate::gpu_passthrough::opt_view(p.nvidia_open_version),
            crate::gpu_passthrough::opt_view(p.nvidia_smi_version),
            exists|k: Seq<char>|
                #![trigger m.caps_view()[k]]
                m.caps_view().dom().contains(k) && m.caps_view()[k].generation == Some(
                    crate::gpu_passthrough::GpuGeneration::Blackwell,
                ),
            crate::gpu_passthrough::opt_view(p.kernel_version),
        ),
        gpu_detection_check(m.gpus_view()),
        iommu_groups_check(m.groups_view()),
        nvbind_check(m.nvbind_view()),
        kernel_parameters_check(p.cmdline@),
        conflicting_drivers_check(m.gpus_view()),
        resizable_bar_check(m.gpus_view(), views(p.gpus_with_resource@)),
    ]
}

/// The fix script for a report: a header, then for each failed or warned
/// check with a fix its comment and command, then a closing line.
pub open spec fn fix_script(checks: Seq<CheckView>) -> Seq<char> {
    "#!/bin/bash\n"@ + "# Nova GPU Passthrough Auto-Fix Script\n"@ + "# Generated by: nova gpu doctor\n\n"@
        + "set -e\n\n"@ + fix_lines(checks)
        + "echo 'Configuration complete. Please reboot for changes to take effect.'\n"@
}

pub open spec fn fix_lines(checks: Seq<CheckView>) -> Seq<char>
    decreases checks.len(),
{
    if checks.len() == 0 {
        Seq::empty()
    } else {
        let c = checks.last();
        fix_lines(checks.drop_last()) + if c.status != CheckStatus::Pass && c.fix is Some {
            "# Fix: "@ + c.name + "\n"@ + c.fix.unwrap() + "\n\n"@
        } else {
            Seq::empty()
        }
    }
}

impl GpuDoctor {
    pub closed spec fn manager(self) -> GpuManager {
        self.gpu_manager
    }

    /// A doctor over a GPU manager that has run discovery.
    pub fn new(gpu_manager: GpuManager) -> (r: Self)
        ensures
            r.manager() == gpu_manager,
    {
        GpuDoctor { gpu_manager }
    }

    /// Runs all checks against the host facts and sums them up.
    pub fn diagnose(&self, probe: &HostProbe) -> (r: DiagnosticReport)
        ensures
            r@ == report_of(checks_of(self.manager(), *probe)),
    {
        let m = &self.gpu_manager;
        let mut checks: Vec<DiagnosticCheck> = Vec::new();
        checks.push(check_iommu(probe.iommu_group_count));
        checks.push(check_virtualization(probe.cpuinfo.as_str()));
        checks.push(check_vfio_modules(m, &probe.loaded_modules));
        checks.push(
            check_nvidia_drivers(
                &probe.nvidia_open_version,
                &probe.nvidia_smi_version,
                m.any_blackwell_gpus(),
                &probe.kernel_version,
            ),
        );
        checks.push(check_gpu_detection(m.list_gpus()));
        checks.push(check_iommu_groups(m.list_iommu_groups()));
        checks.push(check_nvbind(m.nvbind_available()));
        checks.push(check_kernel_parameters(probe.cmdline.as_str()));
        checks.push(check_conflicting_drivers(m.list_gpus()));
        checks.push(check_resizable_bar(m.list_gpus(), &probe.gpus_with_resource));
        assert(checks@.map_values(|c: DiagnosticCheck| c@) =~= checks_of(self.manager(), *probe));
        assemble_report(checks)
    }

    /// A shell script that applies the fixes of the failed and warned checks.
    pub fn generate_fix_script(&self, report: &DiagnosticReport) -> (r: String)
        ensures
            r@ == fix_script(report@.checks),
    {
        let ghost cs = report@.checks;
        let mut script = "#!/bin/bash\n".to_owned();
        script.append("# Nova GPU Passthrough Auto-Fix Script\n");
        script.append("# Generated by: nova gpu doctor\n\n");
        script.append("set -e\n\n");
        let ghost head = script@;
        let mut i: usize = 0;
        while i < report.checks.len()
            invariant
                cs == report@.checks,
                i <= report.checks.len(),
                script@ == head + fix_lines(cs.take(i as int)),
            decreases report.checks.len() - i,
        {
            assert(cs.take(i + 1).drop_last() =~= cs.take(i as int));
            assert(cs.take(i + 1).last() == report.checks@[i as int]@);
            let check = &report.checks[i];
            let ghost before = script@;
            let failing = match check.status {
                CheckStatus::Pass => false,
                _ => true,
            };
            if failing {
                if let Some(fix) = &check.fix_command {
                    script.append("# Fix: ");
                    script.append(check.name.as_str());
                    script.append("\n");
                    script.append(fix.as_str());
                    script.append("\n\n");
                }
            }
            assert(script@ =~= head + fix_lines(cs.take(i + 1)));
            i += 1;
        }
        assert(cs.take(report.checks.len() as int) =~= cs);
        script.append("echo 'Configuration complete. Please reboot for changes to take effect.'\n");
        script
    }
}

// ---------------------------------------------------------------------------
// The printed report
// ---------------------------------------------------------------------------

pub open spec fn report_banner() -> Seq<char> {
    "\n\u{2554}\u{2550}\u{2550}\u{2550}\u{2550}\u{2550}\u{2550}\u{2550}\u{2550}\u{2550}\u{2550}\u{2550}\u{2550}\u{2550}\u{2550}\u{2550}\u{2550}\u{2550}\u{2550}\u{2550}\u{2550}\u{2550}\u{2550}\u{2550}\u{2550}\u{2550}\u{2550}\u{2550}\u{2550}\u{2550}\u{2550}\u{2550}\u{2550}\u{2550}\u{2550}\u{2550}\u{2550}\u{2550}\u{2550}\u{2550}\u{2550}\u{2550}\u{2550}\u{2550}\u{2550}\u{2550}\u{2550}\u{2550}\u{2550}\u{2550}\u{2550}\u{2550}\u{2550}\u{2550}\u{2550}\u{2550}\u{2550}\u{2550}\u{2550}\u{2550}\u{2550}\u{2550}\u{2550}\u{2550}\u{2550}\u{2550}\u{2550}\u{2557}\n\u{2551}          Nova GPU Passthrough Diagnostic Report                 \u{2551}\n\u{255a}\u{2550}\u{2550}\u{2550}\u{2550}\u{2550}\u{2550}\u{2550}\u{2550}\u{2550}\u{2550}\u{2550}\u{2550}\u{2550}\u{2550}\u{2550}\u{2550}\u{2550}\u{2550}\u{2550}\u{2550}\u{2550}\u{2550}\u{2550}\u{2550}\u{2550}\u{2550}\u{2550}\u{2550}\u{2550}\u{2550}\u{2550}\u{2550}\u{2550}\u{2550}\u{2550}\u{2550}\u{2550}\u{2550}\u{2550}\u{2550}\u{2550}\u{2550}\u{2550}\u{2550}\u{2550}\u{2550}\u{2550}\u{2550}\u{2550}\u{2550}\u{2550}\u{2550}\u{2550}\u{2550}\u{2550}\u{2550}\u{2550}\u{2550}\u{2550}\u{2550}\u{2550}\u{2550}\u{2550}\u{2550}\u{2550}\u{2550}\u{255d}\n\n"@
}

pub open spec fn status_text(s: SystemStatus) -> Seq<char> {
    match s {
        SystemStatus::Ready => "Status: \u{2705} READY - System is configured for GPU passthrough\n\n"@,
        SystemStatus::NeedsConfiguration => "Status: \u{26a0}\u{fe0f}  NEEDS CONFIGURATION - System requires adjustments\n\n"@,
        SystemStatus::NotSupported => "Status: \u{274c} NOT READY - Critical issues detected\n\n"@,
    }
}

pub open spec fn checks_banner() -> Seq<char> {
    "\u{2554}\u{2550}\u{2550} Diagnostic Checks \u{2550}\u{2550}\u{2550}\u{2550}\u{2550}\u{2550}\u{2550}\u{2550}\u{2550}\u{2550}\u{2550}\u{2550}\u{2550}\u{2550}\u{2550}\u{2550}\u{2550}\u{2550}\u{2550}\u{2550}\u{2550}\u{2550}\u{2550}\u{2550}\u{2550}\u{2550}\u{2550}\u{2550}\u{2550}\u{2550}\u{2550}\u{2550}\u{2550}\u{2550}\u{2550}\u{2550}\u{2550}\u{2550}\u{2550}\u{2550}\u{2550}\u{2550}\u{2557}\n\n"@
}

pub open spec fn errors_banner() -> Seq<char> {
    "\n\u{2554}\u{2550}\u{2550} Critical Issues \u{2550}\u{2550}\u{2550}\u{2550}\u{2550}\u{2550}\u{2550}\u{2550}\u{2550}\u{2550}\u{2550}\u{2550}\u{2550}\u{2550}\u{2550}\u{2550}\u{2550}\u{2550}\u{2550}\u{2550}\u{2550}\u{2550}\u{2550}\u{2550}\u{2550}\u{2550}\u{2550}\u{2550}\u{2550}\u{2550}\u{2550}\u{2550}\u{2550}\u{2550}\u{2550}\u{2550}\u{2550}\u{2550}\u{2550}\u{2550}\u{2550}\u{2550}\u{2550}\u{2550}\u{2557}\n\n"@
}

pub open spec fn warnings_banner() -> Seq<char> {
    "\n\u{2554}\u{2550}\u{2550} Warnings \u{2550}\u{2550}\u{2550}\u{2550}\u{2550}\u{2550}\u{2550}\u{2550}\u{2550}\u{2550}\u{2550}\u{2550}\u{2550}\u{2550}\u{2550}\u{2550}\u{2550}\u{2550}\u{2550}\u{2550}\u{2550}\u{2550}\u{2550}\u{2550}\u{2550}\u{2550}\u{2550}\u{2550}\u{2550}\u{2550}\u{2550}\u{2550}\u{2550}\u{2550}\u{2550}\u{2550}\u{2550}\u{2550}\u{2550}\u{2550}\u{2550}\u{2550}\u{2550}\u{2550}\u{2550}\u{2550}\u{2550}\u{2550}\u{2550}\u{2550}\u{2550}\u{2557}\n\n"@
}

pub open spec fn recommendations_banner() -> Seq<char> {
    "\n\u{2554}\u{2550}\u{2550} Recommendations \u{2550}\u{2550}\u{2550}\u{2550}\u{2550}\u{2550}\u{2550}\u{2550}\u{2550}\u{2550}\u{2550}\u{2550}\u{2550}\u{2550}\u{2550}\u{2550}\u{2550}\u{2550}\u{2550}\u{2550}\u{2550}\u{2550}\u{2550}\u{2550}\u{2550}\u{2550}\u{2550}\u{2550}\u{2550}\u{2550}\u{2550}\u{2550}\u{2550}\u{2550}\u{2550}\u{2550}\u{2550}\u{2550}\u{2550}\u{2550}\u{2550}\u{2550}\u{2550}\u{2550}\u{2557}\n\n"@
}

pub open spec fn report_footer() -> Seq<char> {
    "\n\u{255a}\u{2550}\u{2550}\u{2550}\u{2550}\u{2550}\u{2550}\u{2550}\u{2550}\u{2550}\u{2550}\u{2550}\u{2550}\u{2550}\u{2550}\u{2550}\u{2550}\u{2550}\u{2550}\u{2550}\u{2550}\u{2550}\u{2550}\u{2550}\u{2550}\u{2550}\u{2550}\u{2550}\u{2550}\u{2550}\u{2550}\u{2550}\u{2550}\u{2550}\u{2550}\u{2550}\u{2550}\u{2550}\u{2550}\u{2550}\u{2550}\u{2550}\u{2550}\u{2550}\u{2550}\u{2550}\u{2550}\u{2550}\u{2550}\u{2550}\u{2550}\u{2550}\u{2550}\u{2550}\u{2550}\u{2550}\u{2550}\u{2550}\u{2550}\u{2550}\u{2550}\u{2550}\u{2550}\u{2550}\u{255d}\n\nFor more information: nova gpu --help\nReport issues: https://github.com/nova-project/nova/issues\n\n"@
}

pub open spec fn status_icon(s: CheckStatus) -> Seq<char> {
    match s {
        CheckStatus::Pass => "\u{2705}"@,
        CheckStatus::Warn => "\u{26a0}\u{fe0f} "@,
        CheckStatus::Fail => "\u{274c}"@,
    }
}

/// A check as the report prints it: its icon, name and message, and the
/// fix under it when there is one.
pub open spec fn check_text(c: CheckView) -> Seq<char> {
    status_icon(c.status) + " "@ + c.name + ": "@ + c.message + "\n"@ + match c.fix {
        Some(f) => "   \u{2514}\u{2500} Fix: "@ + f + "\n"@,
        None => Seq::<char>::empty(),
    }
}

pub open spec fn checks_text(cs: Seq<CheckView>) -> Seq<char>
    decreases cs.len(),
{
    if cs.len() == 0 {
        Seq::empty()
    } else {
        checks_text(cs.drop_last()) + check_text(cs.last())
    }
}

/// Each text on a line of its own.
pub open spec fn lines_text(ls: Seq<Seq<char>>) -> Seq<char>
    decreases ls.len(),
{
    if ls.len() == 0 {
        Seq::empty()
    } else {
        lines_text(ls.drop_last()) + ls.last() + "\n"@
    }
}

/// Each text on a line of its own, numbered from 1.
pub open spec fn numbered_text(ls: Seq<Seq<char>>) -> Seq<char>
    decreases ls.len(),
{
    if ls.len() == 0 {
        Seq::empty()
    } else {
        numbered_text(ls.drop_last()) + dec(ls.len()) + ". "@ + ls.last() + "\n"@
    }
}

/// The printed report: a banner, the status, every check, then the errors,
/// warnings and numbered recommendations, each section only when it has
/// lines, and a footer.
pub open spec fn report_text_of(r: ReportView) -> Seq<char> {
    report_banner() + status_text(r.overall_status) + checks_banner() + checks_text(r.checks)
        + (if r.errors.len() > 0 {
        errors_banner() + lines_text(r.errors)
    } else {
        Seq::empty()
    }) + (if r.warnings.len() > 0 {
        warnings_banner() + lines_text(r.warnings)
    } else {
        Seq::empty()
    }) + (if r.recommendations.len() > 0 {
        recommendations_banner() + numbered_text(r.recommendations)
    } else {
        Seq::empty()
    }) + report_footer()
}

fn append_lines(out: &mut String, ls: &Vec<String>)
    ensures
        final(out)@ == old(out)@ + lines_text(views(ls@)),
{
    let ghost start = out@;
    let ghost lv = views(ls@);
    let mut i: usize = 0;
    while i < ls.len()
        invariant
            lv == views(ls@),
            i <= ls.len(),
            out@ == start + lines_text(lv.take(i as int)),
        decreases ls.len() - i,
    {
        assert(lv.take(i + 1).drop_last() =~= lv.take(i as int));
        assert(lv.take(i + 1).last() == ls@[i as int]@);
        out.append(ls[i].as_str());
        out.append("\n");
        assert(out@ =~= start + lines_text(lv.take(i + 1)));
        i += 1;
    }
    assert(lv.take(ls.len() as int) =~= lv);
}

fn append_numbered(out: &mut String, ls: &Vec<String>)
    ensures
        final(out)@ == old(out)@ + numbered_text(views(ls@)),
{
    let ghost start = out@;
    let ghost lv = views(ls@);
    let mut i: usize = 0;
    while i < ls.len()
        invariant
            lv == views(ls@),
            i <= ls.len(),
            ls.len() <= usize::MAX,
            out@ == start + numbered_text(lv.take(i as int)),
        decreases ls.len() - i,
    {
        assert(lv.take(i + 1).drop_last() =~= lv.take(i as int));
        assert(lv.take(i + 1).last() == ls@[i as int]@);
        assert(lv.take(i + 1).len() == i + 1);
        let n = i + 1;
        out.append(dec_string(n as u64).as_str());
        out.append(". ");
        out.append(ls[i].as_str());
        out.append("\n");
        assert(out@ =~= start + numbered_text(lv.take(i + 1)));
        i += 1;
    }
    assert(lv.take(ls.len() as int) =~= lv);
}

fn check_text_exec(c: &DiagnosticCheck) -> (r: String)
    ensures
        r@ == check_text(c@),
{
    let mut s = match c.status {
        CheckStatus::Pass => "\u{2705}".to_owned(),
        CheckStatus::Warn => "\u{26a0}\u{fe0f} ".to_owned(),
        CheckStatus::Fail => "\u{274c}".to_owned(),
    };
    s.append(" ");
    s.append(c.name.as_str());
    s.append(": ");
    s.append(c.message.as_str());
    s.append("\n");
    if let Some(f) = &c.fix_command {
        s.append("   \u{2514}\u{2500} Fix: ");
        s.append(f.as_str());
        s.append("\n");
    }
    s
}

impl GpuDoctor {
    /// The text of the printed diagnostic report (see `report_text_of`).
    pub fn report_text(&self, report: &DiagnosticReport) -> (r: String)
        ensures
            r@ == report_text_of(report@),
    {
        let mut s = "\n\u{2554}\u{2550}\u{2550}\u{2550}\u{2550}\u{2550}\u{2550}\u{2550}\u{2550}\u{2550}\u{2550}\u{2550}\u{2550}\u{2550}\u{2550}\u{2550}\u{2550}\u{2550}\u{2550}\u{2550}\u{2550}\u{2550}\u{2550}\u{2550}\u{2550}\u{2550}\u{2550}\u{2550}\u{2550}\u{2550}\u{2550}\u{2550}\u{2550}\u{2550}\u{2550}\u{2550}\u{2550}\u{2550}\u{2550}\u{2550}\u{2550}\u{2550}\u{2550}\u{2550}\u{2550}\u{2550}\u{2550}\u{2550}\u{2550}\u{2550}\u{2550}\u{2550}\u{2550}\u{2550}\u{2550}\u{2550}\u{2550}\u{2550}\u{2550}\u{2550}\u{2550}\u{2550}\u{2550}\u{2550}\u{2550}\u{2550}\u{2550}\u{2557}\n\u{2551}          Nova GPU Passthrough Diagnostic Report                 \u{2551}\n\u{255a}\u{2550}\u{2550}\u{2550}\u{2550}\u{2550}\u{2550}\u{2550}\u{2550}\u{2550}\u{2550}\u{2550}\u{2550}\u{2550}\u{2550}\u{2550}\u{2550}\u{2550}\u{2550}\u{2550}\u{2550}\u{2550}\u{2550}\u{2550}\u{2550}\u{2550}\u{2550}\u{2550}\u{2550}\u{2550}\u{2550}\u{2550}\u{2550}\u{2550}\u{2550}\u{2550}\u{2550}\u{2550}\u{2550}\u{2550}\u{2550}\u{2550}\u{2550}\u{2550}\u{2550}\u{2550}\u{2550}\u{2550}\u{2550}\u{2550}\u{2550}\u{2550}\u{2550}\u{2550}\u{2550}\u{2550}\u{2550}\u{2550}\u{2550}\u{2550}\u{2550}\u{2550}\u{2550}\u{2550}\u{2550}\u{2550}\u{2550}\u{255d}\n\n".to_owned();
        match report.overall_status {
            SystemStatus::Ready => s.append("Status: \u{2705} READY - System is configured for GPU passthrough\n\n"),
            SystemStatus::NeedsConfiguration => s.append("Status: \u{26a0}\u{fe0f}  NEEDS CONFIGURATION - System requires adjustments\n\n"),
            SystemStatus::NotSupported => s.append("Status: \u{274c} NOT READY - Critical issues detected\n\n"),
        }
        s.append("\u{2554}\u{2550}\u{2550} Diagnostic Checks \u{2550}\u{2550}\u{2550}\u{2550}\u{2550}\u{2550}\u{2550}\u{2550}\u{2550}\u{2550}\u{2550}\u{2550}\u{2550}\u{2550}\u{2550}\u{2550}\u{2550}\u{2550}\u{2550}\u{2550}\u{2550}\u{2550}\u{2550}\u{2550}\u{2550}\u{2550}\u{2550}\u{2550}\u{2550}\u{2550}\u{2550}\u{2550}\u{2550}\u{2550}\u{2550}\u{2550}\u{2550}\u{2550}\u{2550}\u{2550}\u{2550}\u{2550}\u{2557}\n\n");
        let ghost cs = report@.checks;
        let ghost head = s@;
        let mut i: usize = 0;
        while i < report.checks.len()
            invariant
                cs == report@.checks,
                i <= report.checks.len(),
                s@ == head + checks_text(cs.take(i as int)),
            decreases report.checks.len() - i,
        {
            assert(cs.take(i + 1).drop_last() =~= cs.take(i as int));
            assert(cs.take(i + 1).last() == report.checks@[i as int]@);
            let line = check_text_exec(&report.checks[i]);
            s.append(line.as_str());
            assert(s@ =~= head + checks_text(cs.take(i + 1)));
            i += 1;
        }
        assert(cs.take(report.checks.len() as int) =~= cs);
        let ghost mid = s@;
        if report.errors.len() > 0 {
            s.append("\n\u{2554}\u{2550}\u{2550} Critical Issues \u{2550}\u{2550}\u{2550}\u{2550}\u{2550}\u{2550}\u{2550}\u{2550}\u{2550}\u{2550}\u{2550}\u{2550}\u{2550}\u{2550}\u{2550}\u{2550}\u{2550}\u{2550}\u{2550}\u{2550}\u{2550}\u{2550}\u{2550}\u{2550}\u{2550}\u{2550}\u{2550}\u{2550}\u{2550}\u{2550}\u{2550}\u{2550}\u{2550}\u{2550}\u{2550}\u{2550}\u{2550}\u{2550}\u{2550}\u{2550}\u{2550}\u{2550}\u{2550}\u{2550}\u{2557}\n\n");
            append_lines(&mut s, &report.errors);
        }
        if report.warnings.len() > 0 {
            s.append("\n\u{2554}\u{2550}\u{2550} Warnings \u{2550}\u{2550}\u{2550}\u{2550}\u{2550}\u{2550}\u{2550}\u{2550}\u{2550}\u{2550}\u{2550}\u{2550}\u{2550}\u{2550}\u{2550}\u{2550}\u{2550}\u{2550}\u{2550}\u{2550}\u{2550}\u{2550}\u{2550}\u{2550}\u{2550}\u{2550}\u{2550}\u{2550}\u{2550}\u{2550}\u{2550}\u{2550}\u{2550}\u{2550}\u{2550}\u{2550}\u{2550}\u{2550}\u{2550}\u{2550}\u{2550}\u{2550}\u{2550}\u{2550}\u{2550}\u{2550}\u{2550}\u{2550}\u{2550}\u{2550}\u{2550}\u{2557}\n\n");
            append_lines(&mut s, &report.warnings);
        }
        if report.recommendations.len() > 0 {
            s.append("\n\u{2554}\u{2550}\u{2550} Recommendations \u{2550}\u{2550}\u{2550}\u{2550}\u{2550}\u{2550}\u{2550}\u{2550}\u{2550}\u{2550}\u{2550}\u{2550}\u{2550}\u{2550}\u{2550}\u{2550}\u{2550}\u{2550}\u{2550}\u{2550}\u{2550}\u{2550}\u{2550}\u{2550}\u{2550}\u{2550}\u{2550}\u{2550}\u{2550}\u{2550}\u{2550}\u{2550}\u{2550}\u{2550}\u{2550}\u{2550}\u{2550}\u{2550}\u{2550}\u{2550}\u{2550}\u{2550}\u{2550}\u{2550}\u{2557}\n\n");
            append_numbered(&mut s, &report.recommendations);
        }
        s.append("\n\u{255a}\u{2550}\u{2550}\u{2550}\u{2550}\u{2550}\u{2550}\u{2550}\u{2550}\u{2550}\u{2550}\u{2550}\u{2550}\u{2550}\u{2550}\u{2550}\u{2550}\u{2550}\u{2550}\u{2550}\u{2550}\u{2550}\u{2550}\u{2550}\u{2550}\u{2550}\u{2550}\u{2550}\u{2550}\u{2550}\u{2550}\u{2550}\u{2550}\u{2550}\u{2550}\u{2550}\u{2550}\u{2550}\u{2550}\u{2550}\u{2550}\u{2550}\u{2550}\u{2550}\u{2550}\u{2550}\u{2550}\u{2550}\u{2550}\u{2550}\u{2550}\u{2550}\u{2550}\u{2550}\u{2550}\u{2550}\u{2550}\u{2550}\u{2550}\u{2550}\u{2550}\u{2550}\u{2550}\u{2550}\u{255d}\n\nFor more information: nova gpu --help\nReport issues: https://github.com/nova-project/nova/issues\n\n");
        assert(s@ =~= report_text_of(report@));
        s
    }
}

} // verus!
