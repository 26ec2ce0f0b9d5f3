//! The screenplay project record and its versioning state machine: per-step
//! version history with one active version, approval and rollback of steps,
//! selections, self-check results and checkpoints. Loading and saving the
//! record is done by the caller.
use vstd::prelude::*;
use rand::Rng;
use crate::json::{Json, JsonV, json_view};
use crate::strmap::{StrMap, assoc_get};
use crate::text::{hex_padded, hex_padded_string, string_of, str_eq, trim, trim_chars, chars_of, u8_decimal, u8_to_string};

verus! {

/// Current UTC time as `YYYY-MM-DDTHH:MM:SS.mmmZ`.
#[verifier::external_body]
fn utc_now() -> (r: String) {
    chrono::Utc::now().format("%Y-%m-%dT%H:%M:%S%.3fZ").to_string()
}

/// A random `u64` from the thread-local generator of `rand`.
#[verifier::external_body]
fn random_u64() -> (r: u64) {
    rand::thread_rng().gen::<u64>()
}

/// A random `u32` from the thread-local generator of `rand`.
#[verifier::external_body]
fn random_u32() -> (r: u32) {
    rand::thread_rng().gen::<u32>()
}

pub open spec fn project_id_of(x: u64) -> Seq<char> {
    seq!['s', 'p', '_'] + hex_padded(x as nat, 12)
}

pub open spec fn version_id_of(x: u32) -> Seq<char> {
    seq!['v', '_'] + hex_padded(x as nat, 8)
}

/// A fresh project id: `sp_` and at least 12 hex digits of a random number.
pub fn new_project_id() -> (r: String)
    ensures
        exists|x: u64| r@ == project_id_of(x),
{
    let x = random_u64();
    let mut v: Vec<char> = Vec::new();
    v.push('s');
    v.push('p');
    v.push('_');
    let h = hex_padded_string(x, 12);
    let mut i: usize = 0;
    while i < h.len()
        invariant
            i <= h@.len(),
            v@ == seq!['s', 'p', '_'] + h@.take(i as int),
        decreases h@.len() - i,
    {
        v.push(h[i]);
        assert(h@.take(i + 1) =~= h@.take(i as int).push(h@[i as int]));
        i += 1;
    }
    assert(h@.take(i as int) =~= h@);
    assert(v@ == project_id_of(x));
    string_of(&v)
}

/// A fresh version id: `v_` and 8 hex digits of a random number.
pub fn new_version_id() -> (r: String)
    ensures
        exists|x: u32| r@ == version_id_of(x),
{
    let x = random_u32();
    let mut v: Vec<char> = Vec::new();
    v.push('v');
    v.push('_');
    let h = hex_padded_string(x as u64, 8);
    let mut i: usize = 0;
    while i < h.len()
        invariant
            i <= h@.len(),
            v@ == seq!['v', '_'] + h@.take(i as int),
        decreases h@.len() - i,
    {
        v.push(h[i]);
        assert(h@.take(i + 1) =~= h@.take(i as int).push(h@[i as int]));
        i += 1;
    }
    assert(h@.take(i as int) =~= h@);
    assert(v@ == version_id_of(x));
    string_of(&v)
}

pub struct ProjectInit {
    pub name: Option<String>,
    pub concept: Option<String>,
    pub duration: Option<String>,
    pub path: Option<String>,
    pub imported_script: Option<String>,
    pub imported_file_name: Option<String>,
    pub format: Option<String>,
    pub ultrashort_mode: Option<String>,
    pub genres: Option<Vec<String>>,
    pub chinese: Option<bool>,
    pub master: Option<String>,
}

pub struct VersionEntry {
    pub id: String,
    pub step_number: u8,
    pub version_number: u32,
    pub label: Option<String>,
    pub output: Option<String>,
    pub structured: Option<Json>,
    pub user_feedback: Option<String>,
    pub created_at: String,
    pub is_active: bool,
}

pub open spec fn opt_json_view(o: Option<Json>) -> Option<JsonV> {
    match o {
        Some(j) => Some(json_view(j)),
        None => None,
    }
}

/// Two version entries hold the same values.
pub open spec fn same_version(a: VersionEntry, b: VersionEntry) -> bool {
    &&& a.id == b.id
    &&& a.step_number == b.step_number
    &&& a.version_number == b.version_number
    &&& a.label == b.label
    &&& a.output == b.output
    &&& opt_json_view(a.structured) == opt_json_view(b.structured)
    &&& a.user_feedback == b.user_feedback
    &&& a.created_at == b.created_at
    &&& a.is_active == b.is_active
}

impl Clone for VersionEntry {
    fn clone(&self) -> (r: Self)
        ensures
            same_version(r, *self),
    {
        VersionEntry {
            id: self.id.clone(),
            step_number: self.step_number,
            version_number: self.version_number,
            label: self.label.clone(),
            output: self.output.clone(),
            structured: match &self.structured {
                Some(j) => Some(j.clone()),
                None => None,
            },
            user_feedback: self.user_feedback.clone(),
            created_at: self.created_at.clone(),
            is_active: self.is_active,
        }
    }
}

pub struct StepBucket {
    pub versions: Vec<VersionEntry>,
}

pub struct SelfcheckData {
    pub items: Vec<Json>,
    pub created_at: String,
}

pub struct ProjectRecord {
    pub project_id: String,
    pub init: ProjectInit,
    pub created_at: String,
    pub updated_at: String,
    pub current_step: u8,
    pub done_steps: Vec<u8>,
    pub steps: StrMap<StepBucket>,
    pub selections: StrMap<String>,
    pub selfchecks: StrMap<SelfcheckData>,
    pub linked_script_task_id: Option<String>,
    pub checkpoints: StrMap<String>,
    pub structural_choices: Option<Json>,
}

/// The key under which a step's data is kept: the step number in decimal.
pub open spec fn step_key(n: u8) -> Seq<char> {
    u8_decimal(n)
}

/// The versions recorded for a step (none when the step has no bucket).
pub open spec fn step_versions(rec: ProjectRecord, n: u8) -> Seq<VersionEntry> {
    match rec.steps.get_spec(step_key(n)) {
        Some(b) => b.versions@,
        None => Seq::empty(),
    }
}

/// The entry `v` with its active flag cleared.
pub open spec fn deactivated(v: VersionEntry) -> VersionEntry {
    VersionEntry { is_active: false, ..v }
}

/// Every entry with its active flag cleared.
pub open spec fn all_deactivated(vs: Seq<VersionEntry>) -> Seq<VersionEntry> {
    vs.map_values(|v: VersionEntry| deactivated(v))
}

/// First index at or after `i` of an active version, or -1.
pub open spec fn first_active_from(vs: Seq<VersionEntry>, i: int) -> int
    decreases vs.len() - i,
{
    if i < 0 || i >= vs.len() {
        -1
    } else if vs[i].is_active {
        i
    } else {
        first_active_from(vs, i + 1)
    }
}

/// Index of the version a step shows: its first active version, else its last.
pub open spec fn active_index(vs: Seq<VersionEntry>) -> int {
    if first_active_from(vs, 0) >= 0 {
        first_active_from(vs, 0)
    } else {
        vs.len() - 1
    }
}

/// The version a step shows, if the step has a bucket with versions.
pub open spec fn spec_active_version(rec: ProjectRecord, n: u8) -> Option<VersionEntry> {
    match rec.steps.get_spec(step_key(n)) {
        Some(b) => if b.versions@.len() > 0 {
            Some(b.versions@[active_index(b.versions@)])
        } else {
            None
        },
        None => None,
    }
}

/// A step that has a bucket with no version has nothing to show and no
/// fallback: the one state in which reading its active version cannot succeed.
pub open spec fn active_version_readable(rec: ProjectRecord, n: u8) -> bool {
    match rec.steps.get_spec(step_key(n)) {
        Some(b) => b.versions@.len() > 0,
        None => true,
    }
}

/// The record's fields other than `steps` are those of `b`.
pub open spec fn same_but_steps(a: ProjectRecord, b: ProjectRecord) -> bool {
    &&& a.project_id == b.project_id
    &&& a.init == b.init
    &&& a.created_at == b.created_at
    &&& a.updated_at == b.updated_at
    &&& a.current_step == b.current_step
    &&& a.done_steps == b.done_steps
    &&& a.selections == b.selections
    &&& a.selfchecks == b.selfchecks
    &&& a.linked_script_task_id == b.linked_script_task_id
    &&& a.checkpoints == b.checkpoints
    &&& a.structural_choices == b.structural_choices
}

pub proof fn lemma_first_active_from(vs: Seq<VersionEntry>, i: int)
    requires
        0 <= i <= vs.len(),
    ensures
        first_active_from(vs, i) == -1 || (i <= first_active_from(vs, i) < vs.len()
            && vs[first_active_from(vs, i)].is_active),
        forall|k: int|
            i <= k < vs.len() && (first_active_from(vs, i) == -1 || k < first_active_from(vs, i))
                ==> !(#[trigger] vs[k]).is_active,
    decreases vs.len() - i,
{
    if i < vs.len() && !vs[i].is_active {
        lemma_first_active_from(vs, i + 1);
    }
}


pub open spec fn unnamed_title() -> Seq<char> {
    seq!['\u{672a}', '\u{547d}', '\u{540d}', '\u{5267}', '\u{672c}']
}

/// The first (up to) `n` chars of `s`.
pub open spec fn take_chars(s: Seq<char>, n: int) -> Seq<char> {
    if s.len() <= n {
        s
    } else {
        s.subrange(0, n)
    }
}

/// The name a new project gets: the given name when it is not blank, else the
/// first 30 chars of the concept, else "未命名剧本".
pub open spec fn created_name(init: ProjectInit) -> Seq<char> {
    match init.name {
        Some(n) if trim(n@).len() > 0 => n@,
        _ => match init.concept {
            Some(c) => take_chars(c@, 30),
            None => unnamed_title(),
        },
    }
}

pub open spec fn is_import_path(init: ProjectInit) -> bool {
    match init.path {
        Some(p) => p@ == seq!['i', 'm', 'p', 'o', 'r', 't'],
        None => false,
    }
}

pub fn take_prefix(s: &[char], n: usize) -> (r: Vec<char>)
    ensures
        r@ == take_chars(s@, n as int),
{
    let m = if s.len() <= n { s.len() } else { n };
    let r = crate::text::copy_range(s, 0, m);
    assert(s@.len() <= n ==> s@.subrange(0, m as int) =~= s@);
    r
}

fn opt_is(o: &Option<String>, lit: &str) -> (r: bool)
    ensures
        r == (match *o {
            Some(p) => p@ == lit@,
            None => false,
        }),
{
    match o {
        Some(p) => str_eq(p.as_str(), lit),
        None => false,
    }
}

impl ProjectRecord {
    /// A new record for `init`: named as `created_name` says, at step 8 for an
    /// imported script and step 1 otherwise, with step 0 done and nothing else.
    pub fn create(init: ProjectInit) -> (r: Self)
        ensures
            r.init.name is Some,
            r.init.name->0@ == created_name(init),
            r.init == (ProjectInit { name: r.init.name, ..init }),
            exists|x: u64| r.project_id@ == project_id_of(x),
            r.created_at == r.updated_at,
            r.current_step == (if is_import_path(init) { 8u8 } else { 1u8 }),
            r.done_steps@ == seq![0u8],
            r.steps.entries@.len() == 0,
            r.selections.entries@.len() == 0,
            r.selfchecks.entries@.len() == 0,
            r.checkpoints.entries@.len() == 0,
            r.linked_script_task_id is None,
            r.structural_choices is None,
    {
        let t = utc_now();
        let mut effective = init;
        let ghost orig = effective;
        let name: String = match &effective.name {
            Some(n) if trim_chars(&chars_of(n.as_str())).len() > 0 => n.clone(),
            _ => match &effective.concept {
                Some(c) => string_of(&take_prefix(&chars_of(c.as_str()), 30)),
                None => {
                    proof {
                        reveal_strlit("\u{672a}\u{547d}\u{540d}\u{5267}\u{672c}");
                    }
                    let u = "\u{672a}\u{547d}\u{540d}\u{5267}\u{672c}".to_string();
                    assert(u@ =~= unnamed_title());
                    u
                },
            },
        };
        effective.name = Some(name);
        proof {
            reveal_strlit("import");
            assert("import"@ =~= seq!['i', 'm', 'p', 'o', 'r', 't']);
        }
        let current_step: u8 = if opt_is(&effective.path, "import") {
            8
        } else {
            1
        };
        let mut done: Vec<u8> = Vec::new();
        done.push(0);
        let created = t.clone();
        ProjectRecord {
            project_id: new_project_id(),
            init: effective,
            created_at: created,
            updated_at: t,
            current_step,
            done_steps: done,
            steps: StrMap::new(),
            selections: StrMap::new(),
            selfchecks: StrMap::new(),
            linked_script_task_id: None,
            checkpoints: StrMap::new(),
            structural_choices: None,
        }
    }
}


/// The versions with every active flag cleared.
fn deactivate_all(vs: Vec<VersionEntry>) -> (r: Vec<VersionEntry>)
    ensures
        r@ == vs@.map_values(|v: VersionEntry| deactivated(v)),
{
    let ghost orig = vs@;
    let mut rest = vs;
    let mut out: Vec<VersionEntry> = Vec::new();
    let ghost mut c: int = 0;
    while rest.len() > 0
        invariant
            0 <= c <= orig.len(),
            rest@ == orig.skip(c),
            out@ == orig.take(c).map_values(|v: VersionEntry| deactivated(v)),
        decreases rest@.len(),
    {
        let mut e = rest.remove(0);
        proof {
            assert(e == orig[c]);
            assert(orig.skip(c).remove(0) =~= orig.skip(c + 1));
        }
        e.is_active = false;
        out.push(e);
        proof {
            assert(orig.take(c + 1).map_values(|v: VersionEntry| deactivated(v)) =~= orig.take(c).map_values(
                |v: VersionEntry| deactivated(v),
            ).push(deactivated(orig[c])));
            c = c + 1;
        }
    }
    assert(orig.take(c) =~= orig);
    out
}

/// The entry `v` made active exactly when its id is `id`.
pub open spec fn activated_if(v: VersionEntry, id: Seq<char>) -> VersionEntry {
    VersionEntry { is_active: v.id@ == id, ..v }
}

/// Every entry made active exactly when its id is `id`.
pub open spec fn all_activated_if(vs: Seq<VersionEntry>, id: Seq<char>) -> Seq<VersionEntry> {
    vs.map_values(|v: VersionEntry| activated_if(v, id))
}

fn activate_matching(vs: Vec<VersionEntry>, id: &str) -> (r: Vec<VersionEntry>)
    ensures
        r@ == all_activated_if(vs@, id@),
{
    let ghost orig = vs@;
    let mut rest = vs;
    let mut out: Vec<VersionEntry> = Vec::new();
    let ghost mut c: int = 0;
    while rest.len() > 0
        invariant
            0 <= c <= orig.len(),
            rest@ == orig.skip(c),
            out@ == orig.take(c).map_values(|v: VersionEntry| activated_if(v, id@)),
        decreases rest@.len(),
    {
        let mut e = rest.remove(0);
        proof {
            assert(e == orig[c]);
            assert(orig.skip(c).remove(0) =~= orig.skip(c + 1));
        }
        e.is_active = str_eq(e.id.as_str(), id);
        out.push(e);
        proof {
            assert(orig.take(c + 1).map_values(|v: VersionEntry| activated_if(v, id@)) =~= orig.take(
                c,
            ).map_values(|v: VersionEntry| activated_if(v, id@)).push(activated_if(orig[c], id@)));
            c = c + 1;
        }
    }
    assert(orig.take(c) =~= orig);
    out
}

/// Records a new version of step `step_number` and makes it the only active
/// one; hands back a copy of it.
pub fn append_version(
    rec: &mut ProjectRecord,
    step_number: u8,
    label: Option<String>,
    output: Option<String>,
    structured: Option<Json>,
    user_feedback: Option<String>,
) -> (r: VersionEntry)
    ensures
        same_but_steps(*final(rec), *old(rec)),
        step_versions(*final(rec), step_number) == all_deactivated(step_versions(*old(rec), step_number)).push(step_versions(*final(rec), step_number).last()),
        same_version(r, step_versions(*final(rec), step_number).last()),
        exists|x: u32| r.id@ == version_id_of(x),
        r.step_number == step_number,
        r.version_number == (step_versions(*old(rec), step_number).len() + 1) as u32,
        r.label == label,
        r.output == output,
        opt_json_view(r.structured) == opt_json_view(structured),
        r.user_feedback == user_feedback,
        r.is_active,
        spec_active_version(*final(rec), step_number) is Some,
        same_version(r, spec_active_version(*final(rec), step_number)->0),
        forall|k: Seq<char>| k != step_key(step_number) ==> #[trigger] final(rec).steps.get_spec(k)
            == old(rec).steps.get_spec(k),
{
    let key = u8_to_string(step_number);
    let bucket = rec.steps.take(&key);
    let versions = match bucket {
        Some(b) => b.versions,
        None => Vec::new(),
    };
    let ghost old_vs = versions@;
    assert(old_vs == step_versions(*old(rec), step_number));
    let mut versions = deactivate_all(versions);
    let n = versions.len();
    let version = VersionEntry {
        id: new_version_id(),
        step_number,
        version_number: #[verifier::truncate] ((n as u128 + 1) as u32),
        label,
        output,
        structured,
        user_feedback,
        created_at: utc_now(),
        is_active: true,
    };
    let copy = version.clone();
    versions.push(version);
    let ghost new_vs = versions@;
    rec.steps.insert(key, StepBucket { versions });
    proof {
        crate::strmap::lemma_without_get(old(rec).steps.entries@, step_key(step_number), step_key(step_number));
        assert forall|k: Seq<char>| k != step_key(step_number) implies #[trigger] rec.steps.get_spec(k)
            == old(rec).steps.get_spec(k) by {
            crate::strmap::lemma_without_get(old(rec).steps.entries@, step_key(step_number), k);
        }
        assert(step_versions(*rec, step_number) == new_vs);
        law_new_version_is_shown(old_vs, new_vs.last());
        assert(new_vs == all_deactivated(old_vs).push(new_vs.last()));
    }
    copy
}

/// Makes active exactly the versions of step `step_number` whose id is
/// `version_id` (nothing changes when the step has no bucket).
pub fn set_active_version(rec: &mut ProjectRecord, step_number: u8, version_id: &str)
    ensures
        same_but_steps(*final(rec), *old(rec)),
        step_versions(*final(rec), step_number) == all_activated_if(step_versions(*old(rec), step_number), version_id@),
        old(rec).steps.get_spec(step_key(step_number)) is Some <==> final(rec).steps.get_spec(
            step_key(step_number),
        ) is Some,
        forall|k: Seq<char>| k != step_key(step_number) ==> #[trigger] final(rec).steps.get_spec(k)
            == old(rec).steps.get_spec(k),
{
    let key = u8_to_string(step_number);
    match rec.steps.take(&key) {
        Some(b) => {
            let versions = activate_matching(b.versions, version_id);
            let ghost new_vs = versions@;
            rec.steps.insert(key, StepBucket { versions });
            proof {
                assert forall|k: Seq<char>| k != step_key(step_number) implies #[trigger] rec.steps.get_spec(k)
                    == old(rec).steps.get_spec(k) by {
                    crate::strmap::lemma_without_get(old(rec).steps.entries@, step_key(step_number), k);
                }
            }
        },
        None => {
            proof {
                assert forall|k: Seq<char>| #[trigger] rec.steps.get_spec(k)
                    == old(rec).steps.get_spec(k) by {
                    crate::strmap::lemma_without_get(old(rec).steps.entries@, step_key(step_number), k);
                }
                assert(step_versions(*old(rec), step_number) =~= Seq::<VersionEntry>::empty());
            }
        },
    }
}


fn contains_u8(v: &Vec<u8>, x: u8) -> (r: bool)
    ensures
        r == v@.contains(x),
{
    let mut i: usize = 0;
    while i < v.len()
        invariant
            i <= v@.len(),
            forall|k: int| 0 <= k < i ==> v@[k] != x,
        decreases v@.len() - i,
    {
        if v[i] == x {
            return true;
        }
        i += 1;
    }
    false
}

/// Marks step `step_number` done and moves to `next_step` (at most 9), or to
/// the step after it (at most 9) when no next step is given.
pub fn approve_step(rec: &mut ProjectRecord, step_number: u8, next_step: Option<u8>)
    requires
        next_step is Some || step_number < 255,
    ensures
        final(rec).done_steps@ == (if old(rec).done_steps@.contains(step_number) {
            old(rec).done_steps@
        } else {
            old(rec).done_steps@.push(step_number)
        }),
        final(rec).current_step == (match next_step {
            Some(n) => if n > 9 { 9 } else { n },
            None => if step_number + 1 > 9 { 9 } else { (step_number + 1) as u8 },
        }),
        *final(rec) == (ProjectRecord {
            done_steps: final(rec).done_steps,
            current_step: final(rec).current_step,
            ..*old(rec)
        }),
{
    if !contains_u8(&rec.done_steps, step_number) {
        rec.done_steps.push(step_number);
    }
    rec.current_step = match next_step {
        Some(n) => if n > 9 { 9 } else { n },
        None => {
            let s = step_number + 1;
            if s > 9 { 9 } else { s }
        },
    };
}

/// Goes back to step `target_step`: it becomes the current step and only the
/// steps before it stay done.
pub fn rollback_to(rec: &mut ProjectRecord, target_step: u8)
    ensures
        final(rec).done_steps@ == old(rec).done_steps@.filter(|n: u8| n < target_step),
        final(rec).current_step == target_step,
        final(rec).project_id == old(rec).project_id,
        final(rec).init == old(rec).init,
        final(rec).steps == old(rec).steps,
        final(rec).selections == old(rec).selections,
        final(rec).selfchecks == old(rec).selfchecks,
        final(rec).checkpoints == old(rec).checkpoints,
        final(rec).linked_script_task_id == old(rec).linked_script_task_id,
{
    rec.current_step = target_step;
    let ghost orig = rec.done_steps@;
    let mut out: Vec<u8> = Vec::new();
    let mut i: usize = 0;
    while i < rec.done_steps.len()
        invariant
            rec.done_steps@ == orig,
            i <= orig.len(),
            out@ == orig.take(i as int).filter(|n: u8| n < target_step),
        decreases orig.len() - i,
    {
        proof {
            reveal_with_fuel(Seq::filter, 1);
            assert(orig.take(i + 1).drop_last() =~= orig.take(i as int));
        }
        let n = rec.done_steps[i];
        if n < target_step {
            out.push(n);
        }
        i += 1;
    }
    assert(orig.take(i as int) =~= orig);
    rec.done_steps = out;
}

fn active_index_exec(vs: &Vec<VersionEntry>) -> (r: usize)
    requires
        vs@.len() > 0,
    ensures
        r as int == active_index(vs@),
        r < vs@.len(),
{
    proof {
        lemma_first_active_from(vs@, 0);
    }
    let mut i: usize = 0;
    while i < vs.len()
        invariant
            i <= vs@.len(),
            first_active_from(vs@, 0) == first_active_from(vs@, i as int),
        decreases vs@.len() - i,
    {
        if vs[i].is_active {
            return i;
        }
        i += 1;
    }
    vs.len() - 1
}

/// A copy of the version that step `step_number` shows: its first active
/// version, else its last one; none when the step has no bucket.
pub fn get_active_version(rec: &ProjectRecord, step_number: u8) -> (r: Option<VersionEntry>)
    requires
        active_version_readable(*rec, step_number),
    ensures
        match r {
            Some(v) => spec_active_version(*rec, step_number) is Some && same_version(
                v,
                spec_active_version(*rec, step_number)->0,
            ),
            None => spec_active_version(*rec, step_number) is None,
        },
{
    let key = u8_to_string(step_number);
    match rec.steps.get(&key) {
        Some(b) => {
            let i = active_index_exec(&b.versions);
            Some(b.versions[i].clone())
        },
        None => None,
    }
}

/// Whether step `step_number` of the record can be read
/// (`active_version_readable`): it has no bucket, or one with a version.
pub fn version_readable(rec: &ProjectRecord, step_number: u8) -> (r: bool)
    ensures
        r == active_version_readable(*rec, step_number),
{
    let key = u8_to_string(step_number);
    match rec.steps.get(&key) {
        Some(b) => b.versions.len() > 0,
        None => true,
    }
}

/// Copies of the versions recorded for step `step_number`.
pub fn list_versions(rec: &ProjectRecord, step_number: u8) -> (r: Vec<VersionEntry>)
    ensures
        r@.len() == step_versions(*rec, step_number).len(),
        forall|i: int| 0 <= i < r@.len() ==> same_version(#[trigger] r@[i], step_versions(*rec, step_number)[i]),
{
    let key = u8_to_string(step_number);
    let mut out: Vec<VersionEntry> = Vec::new();
    match rec.steps.get(&key) {
        Some(b) => {
            let mut i: usize = 0;
            while i < b.versions.len()
                invariant
                    i <= b.versions@.len(),
                    b.versions@ == step_versions(*rec, step_number),
                    out@.len() == i,
                    forall|k: int| 0 <= k < i ==> same_version(#[trigger] out@[k], b.versions@[k]),
                decreases b.versions@.len() - i,
            {
                out.push(b.versions[i].clone());
                i += 1;
            }
        },
        None => {},
    }
    out
}

/// Records `selection_id` as the selection of step `step_number`, or clears it.
pub fn set_step_selection(rec: &mut ProjectRecord, step_number: u8, selection_id: Option<String>)
    ensures
        final(rec).selections.get_spec(step_key(step_number)) == selection_id,
        forall|k: Seq<char>| k != step_key(step_number) ==> #[trigger] final(rec).selections.get_spec(k)
            == old(rec).selections.get_spec(k),
        final(rec).steps == old(rec).steps,
        final(rec).done_steps == old(rec).done_steps,
        final(rec).current_step == old(rec).current_step,
        final(rec).checkpoints == old(rec).checkpoints,
        final(rec).init == old(rec).init,
{
    let key = u8_to_string(step_number);
    match selection_id {
        Some(sid) => rec.selections.insert(key, sid),
        None => rec.selections.remove(&key),
    }
}

/// Stores the self-check items of step `step_number`, stamped with the time.
pub fn save_selfcheck(rec: &mut ProjectRecord, step_number: u8, items: Vec<Json>)
    ensures
        final(rec).selfchecks.get_spec(step_key(step_number)) is Some,
        final(rec).selfchecks.get_spec(step_key(step_number))->0.items == items,
        forall|k: Seq<char>| k != step_key(step_number) ==> #[trigger] final(rec).selfchecks.get_spec(k)
            == old(rec).selfchecks.get_spec(k),
        final(rec).steps == old(rec).steps,
        final(rec).selections == old(rec).selections,
        final(rec).checkpoints == old(rec).checkpoints,
{
    let key = u8_to_string(step_number);
    rec.selfchecks.insert(key, SelfcheckData { items, created_at: utc_now() });
}

/// A copy of the self-check stored for step `step_number`.
pub fn get_selfcheck(rec: &ProjectRecord, step_number: u8) -> (r: Option<SelfcheckData>)
    ensures
        match r {
            Some(d) => rec.selfchecks.get_spec(step_key(step_number)) is Some
                && d.created_at == rec.selfchecks.get_spec(step_key(step_number))->0.created_at
                && d.items@.len() == rec.selfchecks.get_spec(step_key(step_number))->0.items@.len()
                && forall|i: int| 0 <= i < d.items@.len() ==> (#[trigger] d.items@[i])@
                    == rec.selfchecks.get_spec(step_key(step_number))->0.items@[i]@,
            None => rec.selfchecks.get_spec(step_key(step_number)) is None,
        },
{
    let key = u8_to_string(step_number);
    match rec.selfchecks.get(&key) {
        Some(d) => {
            let mut out: Vec<Json> = Vec::new();
            let mut i: usize = 0;
            while i < d.items.len()
                invariant
                    i <= d.items@.len(),
                    out@.len() == i,
                    forall|k: int| 0 <= k < i ==> (#[trigger] out@[k])@ == d.items@[k]@,
                decreases d.items@.len() - i,
            {
                out.push(d.items[i].clone());
                i += 1;
            }
            Some(SelfcheckData { items: out, created_at: d.created_at.clone() })
        },
        None => None,
    }
}

/// Stores `content` as the checkpoint of `trigger`.
pub fn save_checkpoint(rec: &mut ProjectRecord, trigger: &str, content: &str)
    ensures
        final(rec).checkpoints.get_spec(trigger@) is Some,
        final(rec).checkpoints.get_spec(trigger@)->0@ == content@,
        forall|k: Seq<char>| k != trigger@ ==> #[trigger] final(rec).checkpoints.get_spec(k)
            == old(rec).checkpoints.get_spec(k),
        *final(rec) == (ProjectRecord { checkpoints: final(rec).checkpoints, ..*old(rec) }),
{
    rec.checkpoints.insert(trigger.to_string(), content.to_string());
}

/// The checkpoint stored for `trigger`.
pub fn get_checkpoint(rec: &ProjectRecord, trigger: &str) -> (r: Option<String>)
    ensures
        r == rec.checkpoints.get_spec(trigger@),
{
    match rec.checkpoints.get(&trigger.to_string()) {
        Some(c) => Some(c.clone()),
        None => None,
    }
}

pub fn set_linked_script_task_id(rec: &mut ProjectRecord, task_id: &str)
    ensures
        final(rec).linked_script_task_id is Some,
        final(rec).linked_script_task_id->0@ == task_id@,
        same_but_linked(*final(rec), *old(rec)),
{
    rec.linked_script_task_id = Some(task_id.to_string());
}

/// The record's fields other than the linked script task are those of `b`.
pub open spec fn same_but_linked(a: ProjectRecord, b: ProjectRecord) -> bool {
    a == (ProjectRecord { linked_script_task_id: a.linked_script_task_id, ..b })
}

/// Renames the project to `new_name` without its surrounding white space.
pub fn rename_project(rec: &mut ProjectRecord, new_name: &str)
    ensures
        final(rec).init.name is Some,
        final(rec).init.name->0@ == trim(new_name@),
        final(rec).init == (ProjectInit { name: final(rec).init.name, ..old(rec).init }),
        *final(rec) == (ProjectRecord { init: final(rec).init, ..*old(rec) }),
{
    let t = trim_chars(&chars_of(new_name));
    rec.init.name = Some(string_of(&t));
}


/// The entry `v` with its structured output replaced by `j`.
pub open spec fn with_structured(v: VersionEntry, j: Json) -> VersionEntry {
    VersionEntry { structured: Some(j), ..v }
}

/// Replaces the structured output of the version step `step_number` shows.
/// False, with nothing changed, when the step has no bucket or no version.
pub fn update_active_step_structured(rec: &mut ProjectRecord, step_number: u8, structured: Json) -> (r: bool)
    ensures
        r == (step_versions(*old(rec), step_number).len() > 0),
        r ==> step_versions(*final(rec), step_number) == step_versions(*old(rec), step_number).update(
            active_index(step_versions(*old(rec), step_number)),
            with_structured(step_versions(*old(rec), step_number)[active_index(step_versions(*old(rec), step_number))], structured),
        ),
        forall|k: Seq<char>| (!r || k != step_key(step_number)) ==> #[trigger] final(rec).steps.get_spec(k)
            == old(rec).steps.get_spec(k),
        same_but_steps(*final(rec), *old(rec)),
{
    let key = u8_to_string(step_number);
    match rec.steps.take(&key) {
        Some(b) => {
            let mut versions = b.versions;
            if versions.len() == 0 {
                let ghost vs = versions@;
                rec.steps.insert(key, StepBucket { versions });
                proof {
                    assert forall|k: Seq<char>| #[trigger] rec.steps.get_spec(k) == old(rec).steps.get_spec(k) by {
                        crate::strmap::lemma_without_get(old(rec).steps.entries@, step_key(step_number), k);
                        if k == step_key(step_number) {
                            assert(old(rec).steps.get_spec(k)->0.versions@ == vs);
                        }
                    }
                }
                return false;
            }
            let idx = active_index_exec(&versions);
            let ghost before = versions@;
            let mut e = versions.remove(idx);
            e.structured = Some(structured);
            versions.insert(idx, e);
            assert(versions@ =~= before.update(idx as int, with_structured(before[idx as int], structured)));
            rec.steps.insert(key, StepBucket { versions });
            proof {
                assert forall|k: Seq<char>| k != step_key(step_number) implies #[trigger] rec.steps.get_spec(k)
                    == old(rec).steps.get_spec(k) by {
                    crate::strmap::lemma_without_get(old(rec).steps.entries@, step_key(step_number), k);
                }
            }
            true
        },
        None => {
            proof {
                assert forall|k: Seq<char>| #[trigger] rec.steps.get_spec(k) == old(rec).steps.get_spec(k) by {
                    crate::strmap::lemma_without_get(old(rec).steps.entries@, step_key(step_number), k);
                }
            }
            false
        },
    }
}


pub proof fn lemma_filter_contains_u8(s: Seq<u8>, t: u8, x: u8)
    ensures
        s.filter(|n: u8| n < t).contains(x) <==> (s.contains(x) && x < t),
    decreases s.len(),
{
    reveal_with_fuel(Seq::filter, 1);
    if s.len() > 0 {
        lemma_filter_contains_u8(s.drop_last(), t, x);
        let f = s.drop_last().filter(|n: u8| n < t);
        if s.contains(x) && !s.drop_last().contains(x) {
            assert(s.last() == x) by {
                let i = choose|i: int| 0 <= i < s.len() && s[i] == x;
                if i < s.len() - 1 {
                    assert(s.drop_last()[i] == x);
                }
            }
        }
        if s.drop_last().contains(x) {
            let i = choose|i: int| 0 <= i < s.drop_last().len() && s.drop_last()[i] == x;
            assert(s[i] == x);
        }
        if s.last() < t {
            assert(s.filter(|n: u8| n < t) == f.push(s.last()));
            if f.push(s.last()).contains(x) && !f.contains(x) {
                let i = choose|i: int| 0 <= i < f.push(s.last()).len() && f.push(s.last())[i] == x;
                if i < f.len() {
                    assert(f[i] == x);
                }
            }
            if f.contains(x) {
                let i = choose|i: int| 0 <= i < f.len() && f[i] == x;
                assert(f.push(s.last())[i] == x);
            }
            if s.last() == x {
                assert(f.push(s.last())[f.len() as int] == x);
            }
        } else {
            assert(s.filter(|n: u8| n < t) == f);
        }
    }
}

/// Law: after a rollback to step `t`, exactly the steps that were done and come
/// before `t` are done; in particular no step at or after `t` is done.
pub proof fn law_rollback_keeps_earlier_steps(done: Seq<u8>, t: u8, x: u8)
    ensures
        done.filter(|n: u8| n < t).contains(x) <==> (done.contains(x) && x < t),
{
    lemma_filter_contains_u8(done, t, x);
}

/// The done steps after approving step `s`.
pub open spec fn approved(done: Seq<u8>, s: u8) -> Seq<u8> {
    if done.contains(s) {
        done
    } else {
        done.push(s)
    }
}

/// Law: approving a step marks it done, keeps every step that was done, and
/// never records a step twice.
pub proof fn law_approve_marks_done(done: Seq<u8>, s: u8)
    ensures
        approved(done, s).contains(s),
        forall|x: u8| done.contains(x) ==> #[trigger] approved(done, s).contains(x),
        done.no_duplicates() ==> approved(done, s).no_duplicates(),
{
    if !done.contains(s) {
        assert(done.push(s)[done.len() as int] == s);
        assert forall|x: u8| done.contains(x) implies #[trigger] approved(done, s).contains(x) by {
            let i = choose|i: int| 0 <= i < done.len() && done[i] == x;
            assert(done.push(s)[i] == x);
        }
        if done.no_duplicates() {
            assert forall|i: int, j: int| 0 <= i < done.push(s).len() && 0 <= j < done.push(s).len()
                && i != j implies done.push(s)[i] != done.push(s)[j] by {
                if i < done.len() && j < done.len() {
                } else if i == done.len() {
                    assert(done[j] != s);
                } else {
                    assert(done[i] != s);
                }
            }
        }
    }
}

/// Law: rolling back to a step at or before an approved step undoes the approval.
pub proof fn law_rollback_undoes_approval(done: Seq<u8>, s: u8, t: u8)
    requires
        t <= s,
    ensures
        !approved(done, s).filter(|n: u8| n < t).contains(s),
{
    lemma_filter_contains_u8(approved(done, s), t, s);
}

/// Law: once a new version is appended (every earlier one deactivated, the
/// new one active), the new version is the one the step shows, and it is the
/// only active one.
pub proof fn law_new_version_is_shown(vs: Seq<VersionEntry>, nv: VersionEntry)
    requires
        nv.is_active,
    ensures
        active_index(all_deactivated(vs).push(nv)) == vs.len(),
        forall|i: int| 0 <= i < vs.len() ==> !(#[trigger] all_deactivated(vs).push(nv)[i]).is_active,
{
    let w = all_deactivated(vs).push(nv);
    assert forall|i: int| 0 <= i < vs.len() implies !(#[trigger] w[i]).is_active by {
        assert(w[i] == deactivated(vs[i]));
    }
    lemma_first_active_from(w, 0);
    assert(first_active_from(w, 0) == vs.len()) by {
        lemma_first_active_from(w, 0);
        if first_active_from(w, 0) != vs.len() {
            if first_active_from(w, 0) == -1 {
                assert(!w[vs.len() as int].is_active);
            } else {
                assert(w[first_active_from(w, 0)].is_active);
            }
        }
    }
}

/// The versions a step holds after the versions `news` were appended to no
/// versions, one by one (`append_version` on each).
pub open spec fn history(news: Seq<VersionEntry>, n: int) -> Seq<VersionEntry>
    decreases n,
{
    if n <= 0 {
        Seq::empty()
    } else {
        all_deactivated(history(news, n - 1)).push(news[n - 1])
    }
}

/// Law: appending k versions to a step that had none, each numbered one past
/// the versions before it and made active, leaves versions numbered 1 to k,
/// in the order appended, of which only the newest is active and shown.
pub proof fn law_version_history(news: Seq<VersionEntry>)
    requires
        forall|i: int| 0 <= i < news.len() ==> (#[trigger] news[i]).version_number == i + 1 && news[i].is_active,
    ensures
        history(news, news.len() as int).len() == news.len(),
        forall|i: int| 0 <= i < news.len() ==> (#[trigger] history(news, news.len() as int)[i]).version_number == i + 1
            && history(news, news.len() as int)[i].id == news[i].id,
        forall|i: int| 0 <= i < news.len() ==> ((#[trigger] history(news, news.len() as int)[i]).is_active
            <==> i == news.len() - 1),
        news.len() > 0 ==> active_index(history(news, news.len() as int)) == news.len() - 1,
    decreases news.len(),
{
    if news.len() > 0 {
        let m = (news.len() - 1) as int;
        let prev = news.take(m);
        assert forall|i: int| 0 <= i < prev.len() implies (#[trigger] prev[i]).version_number == i + 1 && prev[i].is_active by {
            assert(prev[i] == news[i]);
        }
        law_version_history(prev);
        assert forall|n: int| 0 <= n <= m implies #[trigger] history(prev, n) == history(news, n) by {
            lemma_history_prefix(news, m, n);
        }
        let h = history(prev, m);
        law_new_version_is_shown(h, news[m]);
        let w = history(news, news.len() as int);
        assert(w == all_deactivated(h).push(news[m]));
        assert forall|i: int| 0 <= i < news.len() implies (#[trigger] w[i]).version_number == i + 1 && w[i].id == news[i].id
            && (w[i].is_active <==> i == m) by {
            if i < m {
                assert(w[i] == deactivated(h[i]));
                assert(prev[i] == news[i]);
            }
        }
    }
}

proof fn lemma_history_prefix(news: Seq<VersionEntry>, m: int, n: int)
    requires
        0 <= n <= m <= news.len(),
    ensures
        history(news.take(m), n) == history(news, n),
    decreases n,
{
    if n > 0 {
        lemma_history_prefix(news, m, n - 1);
        assert(news.take(m)[n - 1] == news[n - 1]);
    }
}

/// First index of a version with id `id`, or -1.
pub open spec fn first_with_id(vs: Seq<VersionEntry>, id: Seq<char>, i: int) -> int
    decreases vs.len() - i,
{
    if i < 0 || i >= vs.len() {
        -1
    } else if vs[i].id@ == id {
        i
    } else {
        first_with_id(vs, id, i + 1)
    }
}

/// Law: restoring a version that a step holds makes the step show a version
/// with that id (its first one), and exactly the versions with that id active.
pub proof fn law_restored_version_is_shown(vs: Seq<VersionEntry>, id: Seq<char>)
    requires
        exists|i: int| 0 <= i < vs.len() && vs[i].id@ == id,
    ensures
        ({
            let w = all_activated_if(vs, id);
            &&& active_index(w) == first_with_id(vs, id, 0)
            &&& w[active_index(w)].id@ == id
            &&& forall|i: int| 0 <= i < w.len() ==> ((#[trigger] w[i]).is_active <==> w[i].id@ == id)
        }),
{
    let w = all_activated_if(vs, id);
    lemma_same_first(vs, w, id, 0);
}

proof fn lemma_same_first(vs: Seq<VersionEntry>, w: Seq<VersionEntry>, id: Seq<char>, i: int)
    requires
        w == all_activated_if(vs, id),
        0 <= i <= vs.len(),
        exists|k: int| i <= k < vs.len() && vs[k].id@ == id,
    ensures
        first_active_from(w, i) == first_with_id(vs, id, i),
        i <= first_with_id(vs, id, i) < vs.len(),
        vs[first_with_id(vs, id, i)].id@ == id,
    decreases vs.len() - i,
{
    assert(w[i] == activated_if(vs[i], id));
    if vs[i].id@ != id {
        let k = choose|k: int| i <= k < vs.len() && vs[k].id@ == id;
        assert(k != i);
        lemma_same_first(vs, w, id, i + 1);
    }
}

} // verus!

verus! {

/// The structured outputs of steps `1..=n` of a record: `{"structured": ..}`
/// under the step's number, for each step whose active version has one.
pub open spec fn snapshot_steps(rec: ProjectRecord, n: nat) -> Seq<(Seq<char>, JsonV)>
    decreases n,
{
    if n == 0 {
        Seq::empty()
    } else {
        let prev = snapshot_steps(rec, (n - 1) as nat);
        match spec_active_version(rec, n as u8) {
            Some(v) => match v.structured {
                Some(x) => prev.push(
                    (step_key(n as u8), JsonV::Object(seq![("structured"@, json_view(x))])),
                ),
                None => prev,
            },
            None => prev,
        }
    }
}

/// What the model is shown of a project: its steps' structured outputs, its
/// selections, and the checkpoint after step 6 when there is one.
pub open spec fn snapshot_view(rec: ProjectRecord) -> JsonV {
    JsonV::Object(
        seq![
            ("checkpoints"@, JsonV::Object(
                match rec.checkpoints.get_spec("after-step-6"@) {
                    Some(c) => if c@.len() > 0 {
                        seq![("after-step-6"@, JsonV::Str(c@))]
                    } else {
                        Seq::empty()
                    },
                    None => Seq::empty(),
                },
            )),
            ("selections"@, JsonV::Object(
                rec.selections.entries@.map_values(|e: (String, String)| (e.0@, JsonV::Str(e.1@))),
            )),
            ("steps"@, JsonV::Object(snapshot_steps(rec, 8))),
        ],
    )
}

/// Every step's active version can be read.
pub open spec fn steps_readable(rec: ProjectRecord) -> bool {
    forall|n: u8| 1 <= n <= 8 ==> #[trigger] active_version_readable(rec, n)
}

/// Whether a snapshot can be taken of the record (`steps_readable`).
pub fn snapshot_readable(rec: &ProjectRecord) -> (r: bool)
    ensures
        r == steps_readable(*rec),
{
    let mut n: u8 = 1;
    while n <= 8
        invariant
            1 <= n <= 9,
            forall|m: u8| 1 <= m < n ==> #[trigger] active_version_readable(*rec, m),
        decreases 9 - n,
    {
        if !version_readable(rec, n) {
            return false;
        }
        n += 1;
    }
    true
}

/// `build_project_snapshot` of a loaded record.
pub fn build_project_snapshot(rec: &ProjectRecord) -> (r: Json)
    requires
        steps_readable(*rec),
    ensures
        r@ == snapshot_view(*rec),
{
    let mut steps: Vec<(String, Json)> = Vec::new();
    let mut n: u8 = 1;
    while n <= 8
        invariant
            1 <= n <= 9,
            steps_readable(*rec),
            steps@.len() == snapshot_steps(*rec, (n - 1) as nat).len(),
            forall|k: int|
                0 <= k < steps@.len() ==> ((#[trigger] steps@[k]).0@, json_view(steps@[k].1))
                    == snapshot_steps(*rec, (n - 1) as nat)[k],
        decreases 9 - n,
    {
        assert(active_version_readable(*rec, n));
        match get_active_version(rec, n) {
            Some(v) => match v.structured {
                Some(x) => {
                    let inner: Vec<(String, Json)> = vec![("structured".to_string(), x)];
                    proof {
                        crate::json::lemma_object_view(inner);
                    }
                    let obj = Json::Object(inner);
                    assert(json_view(obj)->Object_0 =~= seq![("structured"@, json_view(inner@[0].1))]);
                    steps.push((u8_to_string(n), obj));
                },
                None => {},
            },
            None => {},
        }
        n += 1;
    }
    let mut sel: Vec<(String, Json)> = Vec::new();
    let mut i: usize = 0;
    while i < rec.selections.entries.len()
        invariant
            i <= rec.selections.entries@.len(),
            sel@.len() == i,
            forall|k: int|
                0 <= k < i ==> ((#[trigger] sel@[k]).0@, json_view(sel@[k].1)) == (
                    rec.selections.entries@[k].0@,
                    JsonV::Str(rec.selections.entries@[k].1@),
                ),
        decreases rec.selections.entries@.len() - i,
    {
        sel.push((rec.selections.entries[i].0.clone(), Json::Str(rec.selections.entries[i].1.clone())));
        i += 1;
    }
    let ghost ck_view: Seq<(Seq<char>, JsonV)> = match rec.checkpoints.get_spec("after-step-6"@) {
        Some(c) => if c@.len() > 0 {
            seq![("after-step-6"@, JsonV::Str(c@))]
        } else {
            Seq::empty()
        },
        None => Seq::empty(),
    };
    let mut ck: Vec<(String, Json)> = Vec::new();
    let key = "after-step-6".to_string();
    match rec.checkpoints.get(&key) {
        Some(c) => {
            if !c.as_str().is_empty() {
                ck.push(("after-step-6".to_string(), Json::Str(c.clone())));
            }
        },
        None => {},
    }
    proof {
        crate::json::lemma_object_view(ck);
    }
    assert(json_view(Json::Object(ck))->Object_0 =~= ck_view);
    proof {
        crate::json::lemma_object_view(steps);
        crate::json::lemma_object_view(sel);
        crate::json::lemma_object_view(ck);
    }
    let steps_obj = Json::Object(steps);
    let sel_obj = Json::Object(sel);
    let ck_obj = Json::Object(ck);
    assert(json_view(steps_obj)->Object_0 =~= snapshot_steps(*rec, 8));
    assert(json_view(sel_obj)->Object_0 =~= rec.selections.entries@.map_values(
        |e: (String, String)| (e.0@, JsonV::Str(e.1@)),
    ));
    let fields: Vec<(String, Json)> = vec![
        ("checkpoints".to_string(), ck_obj),
        ("selections".to_string(), sel_obj),
        ("steps".to_string(), steps_obj),
    ];
    proof {
        crate::json::lemma_object_view(fields);
    }
    let r = Json::Object(fields);
    assert(json_view(r)->Object_0 =~= snapshot_view(*rec)->Object_0);
    r
}

} // verus!
