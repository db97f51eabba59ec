//! Bike catalog and community mod guidance.
//!
//! The catalog maps real-world bikes (brand, model, years) to an ECU
//! definition, or to an honest gap note when no definition can talk to the
//! bike yet; nothing in it can make the app send a byte. Mod guidance holds
//! community knowledge about modified bikes: adjusted reference ranges,
//! procedure caveats and likely DTC causes. Guidance has no `verified` flag
//! on purpose, every entry must name its source with an https link, and
//! both files are checked against the loaded definitions so no reference
//! dangles.

use vstd::prelude::*;
use crate::registry::{def_index_from, DefsError, Registry};
use crate::schema::EcuDefinition;
use crate::text::{
    decimal, has_prefix, hex_min, is_blank, is_blank_str, push_decimal, push_hex_min, starts_with,
    str_eq,
};
use crate::validate::{has_channel, issues_upto, lemma_first_issue, one_if};

verus! {

#[derive(Debug, Clone, PartialEq, Eq)]
pub struct CatalogBike {
    pub brand: String,
    pub model: String,
    /// Display-only trim/variant names ("910R", "910S").
    pub variants: Vec<String>,
    pub year_from: u16,
    /// `None` = "onwards".
    pub year_to: Option<u16>,
    /// ECU definition this bike resolves to; `None` for documented gaps.
    pub definition_id: Option<String>,
    /// Honest explanation when we can't talk to this bike (yet). Required
    /// when `definition_id` is absent; allowed alongside one as a caveat.
    pub gap_note: Option<String>,
}

/// The bike catalog: which real-world bikes map to which ECU definition.
#[derive(Debug, Clone, PartialEq, Eq)]
pub struct BikeCatalog {
    pub bikes: Vec<CatalogBike>,
}

#[derive(Debug, Clone, Copy, PartialEq, Eq)]
pub enum ExhaustMod {
    Stock,
    SlipOnOpen,
    FullSystem,
}

#[derive(Debug, Clone, Copy, PartialEq, Eq)]
pub enum EpromMod {
    Stock,
    DealerEprom,
    CustomMap,
}

#[derive(Debug, Clone, Copy, PartialEq, Eq)]
pub enum AirFilterMod {
    Stock,
    HighFlow,
}

/// Which modification values an entry applies to: for every field present,
/// the profile's value must be in the listed set.
#[derive(Debug, Clone, PartialEq, Eq, Default)]
pub struct ModRequires {
    pub exhaust: Option<Vec<ExhaustMod>>,
    pub eprom: Option<Vec<EpromMod>>,
    pub air_filter: Option<Vec<AirFilterMod>>,
}

/// A replacement reference range for a channel, as its rules read it:
/// which bounds it sets, its condition and its citation.
#[derive(Debug, Clone, PartialEq, Eq)]
pub struct ChannelOverride {
    /// Channel key in the referenced definition.
    pub channel: String,
    /// Whether a min, max or target bound is given.
    pub has_min: bool,
    pub has_max: bool,
    pub has_target: bool,
    /// Must self-describe as community-sourced.
    pub condition: String,
    pub note: Option<String>,
    pub source: String,
    pub source_url: String,
}

#[derive(Debug, Clone, PartialEq, Eq)]
pub struct SpecAdjustment {
    pub definition_id: String,
    pub requires: ModRequires,
    pub channel_overrides: Vec<ChannelOverride>,
}

/// Extra step or caveat woven into a routine's procedure for matching mods.
#[derive(Debug, Clone, PartialEq, Eq)]
pub struct ProcedureNote {
    pub definition_id: String,
    /// Routine key in the referenced definition.
    pub routine: String,
    pub requires: ModRequires,
    pub note: String,
    pub source: String,
    pub source_url: String,
}

/// Extra likely cause and check for a DTC when the bike's mods make it
/// probable. The code need not be in the definition's DTC table.
#[derive(Debug, Clone, PartialEq, Eq)]
pub struct DtcNote {
    pub definition_id: String,
    pub code: u16,
    pub requires: ModRequires,
    pub cause: String,
    pub check: String,
    pub source: String,
    pub source_url: String,
}

#[derive(Debug, Clone, PartialEq, Eq, Default)]
pub struct ModGuidance {
    pub adjustments: Vec<SpecAdjustment>,
    pub procedure_notes: Vec<ProcedureNote>,
    pub dtc_notes: Vec<DtcNote>,
}

/// Why a community claim's citation is refused, if it is.
pub open spec fn source_issue(source: Seq<char>, url: Seq<char>) -> Option<Seq<char>> {
    if is_blank(source) {
        Some("empty source — every community claim needs a named source"@)
    } else if !starts_with(url, "https://"@) {
        Some("source_url \""@ + url + "\" must be an https:// URL"@)
    } else {
        None
    }
}

/// A community claim without provenance is a rumor: every entry must say
/// where it came from, and the link must be an https URL.
pub fn validate_source(source: &str, source_url: &str) -> (r: Result<(), String>)
    ensures
        r is Ok <==> source_issue(source@, source_url@) is None,
        r matches Err(m) ==> source_issue(source@, source_url@) == Some(m@),
{
    if is_blank_str(source) {
        return Err(String::from_str("empty source — every community claim needs a named source"));
    }
    if !has_prefix(source_url, "https://") {
        let mut m = String::from_str("source_url \"");
        m.append(source_url);
        m.append("\" must be an https:// URL");
        return Err(m);
    }
    Ok(())
}

/// An issue: the id it is reported under, and the reason.
pub open spec fn issue(id: Seq<char>, reason: Seq<char>) -> Seq<(Seq<char>, Seq<char>)> {
    seq![(id, reason)]
}

pub open spec fn issue_if(cond: bool, id: Seq<char>, reason: Seq<char>) -> Seq<
    (Seq<char>, Seq<char>),
> {
    if cond {
        issue(id, reason)
    } else {
        Seq::empty()
    }
}

pub open spec fn source_issues(id: Seq<char>, source: Seq<char>, url: Seq<char>) -> Seq<
    (Seq<char>, Seq<char>),
> {
    match source_issue(source, url) {
        Some(reason) => issue(id, reason),
        None => Seq::empty(),
    }
}

/// `r` reports the first issue as an invalid definition, or none.
pub open spec fn reports_first_invalid(r: Result<(), DefsError>, issues: Seq<(Seq<char>, Seq<char>)>) -> bool {
    &&& r is Ok <==> issues.len() == 0
    &&& r matches Err(e) ==> (e matches DefsError::Invalid { id, reason } && (id@, reason@)
        == issues[0])
}

pub open spec fn bike_label(b: CatalogBike) -> Seq<char> {
    b.brand@ + " "@ + b.model@
}

pub open spec fn bike_issues(defs: Seq<EcuDefinition>, b: CatalogBike) -> Seq<(Seq<char>, Seq<char>)> {
    issue_if(
        b.definition_id is None && b.gap_note is None,
        bike_label(b),
        "needs a definition_id or a gap_note — a bike we can neither talk to nor explain is a silent dead end"@,
    ) + match b.definition_id {
        Some(id) => issue_if(
            def_index_from(defs, id@, 0) is None,
            bike_label(b),
            "unknown definition_id \""@ + id@ + "\""@,
        ),
        None => Seq::empty(),
    } + match b.year_to {
        Some(to) => issue_if(
            b.year_from > to,
            bike_label(b),
            "year_from "@ + decimal(b.year_from as nat) + " is after year_to "@ + decimal(to as nat),
        ),
        None => Seq::empty(),
    }
}

pub open spec fn catalog_issues(defs: Seq<EcuDefinition>, c: BikeCatalog) -> Seq<(Seq<char>, Seq<char>)> {
    issues_upto(|i: int| bike_issues(defs, c.bikes@[i]), c.bikes@.len())
}

fn invalid(id: &str, reason: String) -> (e: DefsError)
    ensures
        e matches DefsError::Invalid { id: i, reason: r } && i@ == id@ && r == reason,
{
    DefsError::Invalid { id: String::from_str(id), reason }
}

fn first_bike_issue(reg: &Registry, b: &CatalogBike) -> (r: Result<(), DefsError>)
    ensures
        reports_first_invalid(r, bike_issues(reg.defs(), *b)),
{
    let mut label = String::from_str(b.brand.as_str());
    label.append(" ");
    label.append(b.model.as_str());
    if b.definition_id.is_none() && b.gap_note.is_none() {
        return Err(
            invalid(
                label.as_str(),
                String::from_str(
                    "needs a definition_id or a gap_note — a bike we can neither talk to nor explain is a silent dead end",
                ),
            ),
        );
    }
    if let Some(id) = &b.definition_id {
        if reg.get(id.as_str()).is_none() {
            let mut m = String::from_str("unknown definition_id \"");
            m.append(id.as_str());
            m.append("\"");
            return Err(invalid(label.as_str(), m));
        }
    }
    if let Some(to) = b.year_to {
        if b.year_from > to {
            let mut m = String::from_str("year_from ");
            push_decimal(&mut m, b.year_from as u64);
            m.append(" is after year_to ");
            push_decimal(&mut m, to as u64);
            return Err(invalid(label.as_str(), m));
        }
    }
    assert(bike_issues(reg.defs(), *b) =~= Seq::<(Seq<char>, Seq<char>)>::empty());
    Ok(())
}

impl BikeCatalog {
    /// Check every bike: it resolves to a loaded definition or explains the
    /// gap, and its years are in order. The first problem is the error.
    pub fn validate(&self, registry: &Registry) -> (r: Result<(), DefsError>)
        ensures
            reports_first_invalid(r, catalog_issues(registry.defs(), *self)),
    {
        let ghost f = |i: int| bike_issues(registry.defs(), self.bikes@[i]);
        let mut i: usize = 0;
        while i < self.bikes.len()
            invariant
                i <= self.bikes@.len(),
                f == (|i: int| bike_issues(registry.defs(), self.bikes@[i])),
                issues_upto(f, i as nat).len() == 0,
            decreases self.bikes@.len() - i,
        {
            let r = first_bike_issue(registry, &self.bikes[i]);
            if r.is_err() {
                proof {
                    lemma_first_issue(f, i as nat, self.bikes@.len());
                }
                return r;
            }
            assert(issues_upto(f, (i + 1) as nat) =~= issues_upto(f, i as nat) + f(i as int));
            i = i + 1;
        }
        Ok(())
    }
}

/// The definition an id resolves to, if any.
pub open spec fn def_for(defs: Seq<EcuDefinition>, id: Seq<char>) -> Option<EcuDefinition> {
    match def_index_from(defs, id, 0) {
        Some(k) => Some(defs[k]),
        None => None,
    }
}

pub open spec fn unknown_def(id: Seq<char>) -> Seq<(Seq<char>, Seq<char>)> {
    issue(id, "unknown definition_id \""@ + id + "\""@)
}

pub open spec fn override_issues(id: Seq<char>, d: EcuDefinition, o: ChannelOverride) -> Seq<
    (Seq<char>, Seq<char>),
> {
    issue_if(
        !has_channel(d.channels@, o.channel@),
        id,
        "adjustment references unknown channel \""@ + o.channel@ + "\""@,
    ) + issue_if(
        !o.has_min && !o.has_max && !o.has_target,
        id,
        "channel override \""@ + o.channel@ + "\" sets none of min/max/target"@,
    ) + issue_if(
        is_blank(o.condition@),
        id,
        "channel override \""@ + o.channel@
            + "\" has an empty condition — a range without its condition is meaningless"@,
    ) + source_issues(id, o.source@, o.source_url@)
}

pub open spec fn adjustment_issues(defs: Seq<EcuDefinition>, a: SpecAdjustment) -> Seq<
    (Seq<char>, Seq<char>),
> {
    let id = a.definition_id@;
    match def_for(defs, id) {
        None => unknown_def(id),
        Some(d) => issue_if(a.channel_overrides@.len() == 0, id, "adjustment has no channel_overrides"@)
            + issues_upto(|j: int| override_issues(id, d, a.channel_overrides@[j]), a.channel_overrides@.len()),
    }
}

pub open spec fn has_routine(d: EcuDefinition, key: Seq<char>) -> bool {
    exists|i: int| 0 <= i < d.routines@.len() && (#[trigger] d.routines@[i]).key@ == key
}

pub open spec fn procedure_note_issues(defs: Seq<EcuDefinition>, n: ProcedureNote) -> Seq<
    (Seq<char>, Seq<char>),
> {
    let id = n.definition_id@;
    match def_for(defs, id) {
        None => unknown_def(id),
        Some(d) => issue_if(
            !has_routine(d, n.routine@),
            id,
            "procedure note references unknown routine \""@ + n.routine@ + "\""@,
        ) + issue_if(is_blank(n.note@), id, "procedure note for \""@ + n.routine@ + "\" is empty"@)
            + source_issues(id, n.source@, n.source_url@),
    }
}

pub open spec fn dtc_note_issues(defs: Seq<EcuDefinition>, n: DtcNote) -> Seq<(Seq<char>, Seq<char>)> {
    let id = n.definition_id@;
    match def_for(defs, id) {
        None => unknown_def(id),
        Some(_) => issue_if(
            is_blank(n.cause@) || is_blank(n.check@),
            id,
            "DTC note for code 0x"@ + hex_min(n.code as nat, 4) + " needs both a cause and a check"@,
        ) + source_issues(id, n.source@, n.source_url@),
    }
}

/// Everything wrong with the guidance, in the order it is checked.
pub open spec fn guidance_issues(defs: Seq<EcuDefinition>, g: ModGuidance) -> Seq<(Seq<char>, Seq<char>)> {
    issues_upto(|i: int| adjustment_issues(defs, g.adjustments@[i]), g.adjustments@.len())
        + issues_upto(|i: int| procedure_note_issues(defs, g.procedure_notes@[i]), g.procedure_notes@.len())
        + issues_upto(|i: int| dtc_note_issues(defs, g.dtc_notes@[i]), g.dtc_notes@.len())
}

fn channel_exists(d: &EcuDefinition, key: &str) -> (r: bool)
    ensures
        r == has_channel(d.channels@, key@),
{
    let mut i: usize = 0;
    while i < d.channels.len()
        invariant
            i <= d.channels@.len(),
            forall|k: int| 0 <= k < i ==> (#[trigger] d.channels@[k]).key@ != key@,
        decreases d.channels@.len() - i,
    {
        if str_eq(d.channels[i].key.as_str(), key) {
            return true;
        }
        i = i + 1;
    }
    false
}

fn routine_exists(d: &EcuDefinition, key: &str) -> (r: bool)
    ensures
        r == has_routine(*d, key@),
{
    let mut i: usize = 0;
    while i < d.routines.len()
        invariant
            i <= d.routines@.len(),
            forall|k: int| 0 <= k < i ==> (#[trigger] d.routines@[k]).key@ != key@,
        decreases d.routines@.len() - i,
    {
        if str_eq(d.routines[i].key.as_str(), key) {
            return true;
        }
        i = i + 1;
    }
    false
}

fn unknown_definition(id: &str) -> (e: DefsError)
    ensures
        reports_first_invalid(Err(e), unknown_def(id@)),
{
    let mut m = String::from_str("unknown definition_id \"");
    m.append(id);
    m.append("\"");
    invalid(id, m)
}

fn first_source_issue(id: &str, source: &str, url: &str) -> (r: Result<(), DefsError>)
    ensures
        reports_first_invalid(r, source_issues(id@, source@, url@)),
{
    match validate_source(source, url) {
        Ok(()) => Ok(()),
        Err(reason) => Err(invalid(id, reason)),
    }
}

fn first_override_issue(id: &str, d: &EcuDefinition, o: &ChannelOverride) -> (r: Result<(), DefsError>)
    ensures
        reports_first_invalid(r, override_issues(id@, *d, *o)),
{
    if !channel_exists(d, o.channel.as_str()) {
        let mut m = String::from_str("adjustment references unknown channel \"");
        m.append(o.channel.as_str());
        m.append("\"");
        return Err(invalid(id, m));
    }
    if !o.has_min && !o.has_max && !o.has_target {
        let mut m = String::from_str("channel override \"");
        m.append(o.channel.as_str());
        m.append("\" sets none of min/max/target");
        return Err(invalid(id, m));
    }
    if is_blank_str(o.condition.as_str()) {
        let mut m = String::from_str("channel override \"");
        m.append(o.channel.as_str());
        m.append("\" has an empty condition — a range without its condition is meaningless");
        return Err(invalid(id, m));
    }
    let r = first_source_issue(id, o.source.as_str(), o.source_url.as_str());
    proof {
        let head = issue_if(
            !has_channel(d.channels@, o.channel@),
            id@,
            "adjustment references unknown channel \""@ + o.channel@ + "\""@,
        ) + issue_if(
            !o.has_min && !o.has_max && !o.has_target,
            id@,
            "channel override \""@ + o.channel@ + "\" sets none of min/max/target"@,
        ) + issue_if(
            is_blank(o.condition@),
            id@,
            "channel override \""@ + o.channel@
                + "\" has an empty condition — a range without its condition is meaningless"@,
        );
        assert(head =~= Seq::<(Seq<char>, Seq<char>)>::empty());
        assert(override_issues(id@, *d, *o) =~= source_issues(id@, o.source@, o.source_url@));
    }
    r
}

fn first_adjustment_issue(reg: &Registry, a: &SpecAdjustment) -> (r: Result<(), DefsError>)
    ensures
        reports_first_invalid(r, adjustment_issues(reg.defs(), *a)),
{
    let id = a.definition_id.as_str();
    let d = match reg.get(id) {
        Some(d) => d,
        None => {
            return Err(unknown_definition(id));
        },
    };
    if a.channel_overrides.len() == 0 {
        return Err(invalid(id, String::from_str("adjustment has no channel_overrides")));
    }
    let ghost f = |j: int| override_issues(id@, *d, a.channel_overrides@[j]);
    assert(def_for(reg.defs(), id@) == Some(*d));
    assert(adjustment_issues(reg.defs(), *a) =~= issues_upto(f, a.channel_overrides@.len()));
    let mut j: usize = 0;
    while j < a.channel_overrides.len()
        invariant
            j <= a.channel_overrides@.len(),
            f == (|j: int| override_issues(id@, *d, a.channel_overrides@[j])),
            issues_upto(f, j as nat).len() == 0,
            adjustment_issues(reg.defs(), *a) == issues_upto(f, a.channel_overrides@.len()),
        decreases a.channel_overrides@.len() - j,
    {
        let r = first_override_issue(id, d, &a.channel_overrides[j]);
        if r.is_err() {
            proof {
                lemma_first_issue(f, j as nat, a.channel_overrides@.len());
            }
            return r;
        }
        assert(issues_upto(f, (j + 1) as nat) =~= issues_upto(f, j as nat) + f(j as int));
        j = j + 1;
    }
    Ok(())
}

fn first_procedure_note_issue(reg: &Registry, n: &ProcedureNote) -> (r: Result<(), DefsError>)
    ensures
        reports_first_invalid(r, procedure_note_issues(reg.defs(), *n)),
{
    let id = n.definition_id.as_str();
    let d = match reg.get(id) {
        Some(d) => d,
        None => {
            return Err(unknown_definition(id));
        },
    };
    if !routine_exists(d, n.routine.as_str()) {
        let mut m = String::from_str("procedure note references unknown routine \"");
        m.append(n.routine.as_str());
        m.append("\"");
        return Err(invalid(id, m));
    }
    if is_blank_str(n.note.as_str()) {
        let mut m = String::from_str("procedure note for \"");
        m.append(n.routine.as_str());
        m.append("\" is empty");
        return Err(invalid(id, m));
    }
    let r = first_source_issue(id, n.source.as_str(), n.source_url.as_str());
    proof {
        let head = issue_if(
            !has_routine(*d, n.routine@),
            id@,
            "procedure note references unknown routine \""@ + n.routine@ + "\""@,
        ) + issue_if(is_blank(n.note@), id@, "procedure note for \""@ + n.routine@ + "\" is empty"@);
        assert(head =~= Seq::<(Seq<char>, Seq<char>)>::empty());
    }
    r
}

fn first_dtc_note_issue(reg: &Registry, n: &DtcNote) -> (r: Result<(), DefsError>)
    ensures
        reports_first_invalid(r, dtc_note_issues(reg.defs(), *n)),
{
    let id = n.definition_id.as_str();
    match reg.get(id) {
        Some(_) => {},
        None => {
            return Err(unknown_definition(id));
        },
    }
    if is_blank_str(n.cause.as_str()) || is_blank_str(n.check.as_str()) {
        let mut m = String::from_str("DTC note for code 0x");
        push_hex_min(&mut m, n.code as u64, 4);
        m.append(" needs both a cause and a check");
        return Err(invalid(id, m));
    }
    let r = first_source_issue(id, n.source.as_str(), n.source_url.as_str());
    proof {
        let head = issue_if(
            is_blank(n.cause@) || is_blank(n.check@),
            id@,
            "DTC note for code 0x"@ + hex_min(n.code as nat, 4) + " needs both a cause and a check"@,
        );
        assert(head =~= Seq::<(Seq<char>, Seq<char>)>::empty());
    }
    r
}

impl ModGuidance {
    /// Check every entry: it references a loaded definition and, within it,
    /// a known channel or routine; ranges state their condition and bounds;
    /// and every claim names an https source. The first problem is the error.
    pub fn validate(&self, registry: &Registry) -> (r: Result<(), DefsError>)
        ensures
            reports_first_invalid(r, guidance_issues(registry.defs(), *self)),
    {
        let ghost defs = registry.defs();
        let ghost fa = |i: int| adjustment_issues(defs, self.adjustments@[i]);
        let ghost fp = |i: int| procedure_note_issues(defs, self.procedure_notes@[i]);
        let ghost fd = |i: int| dtc_note_issues(defs, self.dtc_notes@[i]);
        let ghost ga = issues_upto(fa, self.adjustments@.len());
        let ghost gp = issues_upto(fp, self.procedure_notes@.len());
        let ghost gd = issues_upto(fd, self.dtc_notes@.len());
        assert(guidance_issues(defs, *self) == ga + gp + gd);
        let mut i: usize = 0;
        while i < self.adjustments.len()
            invariant
                i <= self.adjustments@.len(),
                defs == registry.defs(),
                fa == (|i: int| adjustment_issues(defs, self.adjustments@[i])),
                issues_upto(fa, i as nat).len() == 0,
                ga == issues_upto(fa, self.adjustments@.len()),
                guidance_issues(defs, *self) == ga + gp + gd,
            decreases self.adjustments@.len() - i,
        {
            let r = first_adjustment_issue(registry, &self.adjustments[i]);
            if r.is_err() {
                proof {
                    lemma_first_issue(fa, i as nat, self.adjustments@.len());
                }
                return r;
            }
            assert(issues_upto(fa, (i + 1) as nat) =~= issues_upto(fa, i as nat) + fa(i as int));
            i = i + 1;
        }
        assert(ga.len() == 0);
        let mut i: usize = 0;
        while i < self.procedure_notes.len()
            invariant
                i <= self.procedure_notes@.len(),
                defs == registry.defs(),
                fp == (|i: int| procedure_note_issues(defs, self.procedure_notes@[i])),
                issues_upto(fp, i as nat).len() == 0,
                ga.len() == 0,
                gp == issues_upto(fp, self.procedure_notes@.len()),
                guidance_issues(defs, *self) == ga + gp + gd,
            decreases self.procedure_notes@.len() - i,
        {
            let r = first_procedure_note_issue(registry, &self.procedure_notes[i]);
            if r.is_err() {
                proof {
                    lemma_first_issue(fp, i as nat, self.procedure_notes@.len());
                }
                assert(ga + gp + gd =~= gp + gd);
                return r;
            }
            assert(issues_upto(fp, (i + 1) as nat) =~= issues_upto(fp, i as nat) + fp(i as int));
            i = i + 1;
        }
        assert(gp.len() == 0);
        let mut i: usize = 0;
        while i < self.dtc_notes.len()
            invariant
                i <= self.dtc_notes@.len(),
                defs == registry.defs(),
                fd == (|i: int| dtc_note_issues(defs, self.dtc_notes@[i])),
                issues_upto(fd, i as nat).len() == 0,
                ga.len() == 0,
                gp.len() == 0,
                gd == issues_upto(fd, self.dtc_notes@.len()),
                guidance_issues(defs, *self) == ga + gp + gd,
            decreases self.dtc_notes@.len() - i,
        {
            let r = first_dtc_note_issue(registry, &self.dtc_notes[i]);
            if r.is_err() {
                proof {
                    lemma_first_issue(fd, i as nat, self.dtc_notes@.len());
                }
                assert(ga + gp + gd =~= gd);
                return r;
            }
            assert(issues_upto(fd, (i + 1) as nat) =~= issues_upto(fd, i as nat) + fd(i as int));
            i = i + 1;
        }
        Ok(())
    }
}

} // verus!
