//! The judgements behind the connection diagnostics and the system
//! information report: how a service's state reads, whether the OTG port
//! is a peripheral, what loading a module came to, and which kernel
//! messages are worth showing.

use vstd::prelude::*;
use crate::boot_config::texts;
use crate::text::{self, has_substring, trim, ViewEq};

verus! {

/// The mark shown beside what `systemctl is-active` printed (already trimmed).
pub open spec fn status_icon_text(status: Seq<char>) -> Seq<char> {
    if status == "active"@ {
        "✅"@
    } else if status == "inactive"@ {
        "⏸️"@
    } else if status == "failed"@ {
        "❌"@
    } else {
        "❓"@
    }
}

/// The mark for a service's `is-active` status; see `status_icon_text`.
pub fn service_status_icon(status: &str) -> (r: &'static str)
    ensures
        r@ == status_icon_text(status@),
{
    if status.view_eq("active") {
        "✅"
    } else if status.view_eq("inactive") {
        "⏸️"
    } else if status.view_eq("failed") {
        "❌"
    } else {
        "❓"
    }
}

/// How the system report sums up a service from whether it is enabled and
/// whether it is active.
pub fn service_summary(is_enabled: bool, is_active: bool) -> (r: &'static str)
    ensures
        is_enabled && is_active ==> r@ == "✅ Enabled & Active"@,
        is_enabled && !is_active ==> r@ == "⚠️  Enabled but Inactive"@,
        !is_enabled && is_active ==> r@ == "⚠️  Active but not Enabled"@,
        !is_enabled && !is_active ==> r@ == "❌ Disabled & Inactive"@,
{
    if is_enabled && is_active {
        "✅ Enabled & Active"
    } else if is_enabled {
        "⚠️  Enabled but Inactive"
    } else if is_active {
        "⚠️  Active but not Enabled"
    } else {
        "❌ Disabled & Inactive"
    }
}

/// Whether the OTG port's `mode` file (trimmed) says it acts as a
/// peripheral: `peripheral` or `b_peripheral`.
pub fn otg_mode_is_peripheral(mode: &str) -> (r: bool)
    ensures
        r == (trim(mode@) == "peripheral"@ || trim(mode@) == "b_peripheral"@),
{
    let t = crate::boot_config::trimmed(mode);
    t.as_str().view_eq("peripheral") || t.as_str().view_eq("b_peripheral")
}

/// What became of `modprobe <module>`.
#[derive(Debug, Clone, PartialEq, Eq)]
pub enum ModprobeOutcome {
    Loaded,
    /// The kernel has no such module.
    NotAvailable,
    /// It failed silently: the module was already loaded.
    AlreadyLoaded,
    /// It failed with this message (trimmed).
    Failed(String),
}

/// What `modprobe` came to, from whether it succeeded and what it wrote to
/// its error output: success is loaded; a message naming a module not found
/// is not available; no message is already loaded; else a failure.
pub fn modprobe_outcome(success: bool, stderr: &str) -> (r: ModprobeOutcome)
    ensures
        success ==> r == ModprobeOutcome::Loaded,
        !success && has_substring(stderr@, "Module"@) && has_substring(stderr@, "not found"@)
            ==> r == ModprobeOutcome::NotAvailable,
        !success && !(has_substring(stderr@, "Module"@) && has_substring(stderr@, "not found"@))
            && stderr@.len() == 0 ==> r == ModprobeOutcome::AlreadyLoaded,
        !success && !(has_substring(stderr@, "Module"@) && has_substring(stderr@, "not found"@))
            && stderr@.len() > 0 ==> (r matches ModprobeOutcome::Failed(m) && m@ == trim(stderr@)),
{
    if success {
        ModprobeOutcome::Loaded
    } else if text::contains_str(stderr, "Module") && text::contains_str(stderr, "not found") {
        ModprobeOutcome::NotAvailable
    } else if stderr.is_empty() {
        ModprobeOutcome::AlreadyLoaded
    } else {
        ModprobeOutcome::Failed(crate::boot_config::trimmed(stderr))
    }
}

/// Whether a line mentions one of the keywords.
pub open spec fn mentions_any(line: Seq<char>, keywords: Seq<Seq<char>>) -> bool {
    exists|k: int| 0 <= k < keywords.len() && has_substring(line, #[trigger] keywords[k])
}

fn line_mentions(line: &str, keywords: &Vec<String>) -> (r: bool)
    ensures
        r == mentions_any(line@, texts(keywords@)),
{
    let mut k: usize = 0;
    while k < keywords.len()
        invariant
            k <= keywords@.len(),
            forall|j: int| 0 <= j < k ==> !has_substring(line@, #[trigger] texts(keywords@)[j]),
        decreases keywords@.len() - k,
    {
        if text::contains_str(line, keywords[k].as_str()) {
            assert(texts(keywords@)[k as int] == keywords@[k as int]@);
            return true;
        }
        assert(texts(keywords@)[k as int] == keywords@[k as int]@);
        k = k + 1;
    }
    false
}

/// The lines that mention one of the keywords, in order.
pub open spec fn mentioning(lines: Seq<Seq<char>>, keywords: Seq<Seq<char>>) -> Seq<Seq<char>> {
    lines.filter(|l: Seq<char>| mentions_any(l, keywords))
}

/// The last `n` of the lines that mention a keyword (all of them when there
/// are fewer), in their order: how the reports pick recent kernel messages.
pub open spec fn last_mentioning_of(lines: Seq<Seq<char>>, keywords: Seq<Seq<char>>, n: nat) -> Seq<Seq<char>> {
    let m = mentioning(lines, keywords);
    if m.len() <= n { m } else { m.skip(m.len() - n) }
}

/// The last `n` lines that mention a keyword; see `last_mentioning_of`.
pub fn last_mentioning(lines: &Vec<String>, keywords: &Vec<String>, n: usize) -> (r: Vec<String>)
    ensures
        texts(r@) == last_mentioning_of(texts(lines@), texts(keywords@), n as nat),
{
    let ghost kw = texts(keywords@);
    let mut m: Vec<String> = Vec::new();
    let mut i: usize = 0;
    while i < lines.len()
        invariant
            i <= lines@.len(),
            kw == texts(keywords@),
            texts(m@) == mentioning(texts(lines@.take(i as int)), kw),
        decreases lines@.len() - i,
    {
        let ghost before = texts(m@);
        proof {
            let t = texts(lines@.take(i + 1));
            assert(t.drop_last() =~= texts(lines@.take(i as int)));
            reveal_with_fuel(Seq::filter, 1);
        }
        if line_mentions(lines[i].as_str(), keywords) {
            m.push(lines[i].clone());
            assert(texts(m@) =~= before.push(lines@[i as int]@));
        }
        i = i + 1;
    }
    assert(lines@.take(i as int) =~= lines@);
    if m.len() <= n {
        return m;
    }
    let start = m.len() - n;
    let mut r: Vec<String> = Vec::new();
    let mut j: usize = start;
    while j < m.len()
        invariant
            start <= j <= m@.len(),
            start == m@.len() - n,
            texts(r@) == texts(m@).subrange(start as int, j as int),
        decreases m@.len() - j,
    {
        let ghost before = texts(r@);
        r.push(m[j].clone());
        assert(texts(r@) =~= before.push(m@[j as int]@));
        assert(texts(m@).subrange(start as int, j + 1) =~= texts(m@).subrange(start as int, j as int).push(m@[j as int]@));
        j = j + 1;
    }
    assert(texts(m@).subrange(start as int, j as int) =~= texts(m@).skip(start as int));
    r
}

} // verus!
