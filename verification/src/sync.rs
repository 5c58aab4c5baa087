use vstd::prelude::*;
use crate::error::AppError;
use crate::ident::{valid_window_id, validate_window_id};
use crate::json::{
    jview, keys_view, obj_lookup, obj_set, path_get, path_set, get_path, set_path, JsonVal,
    JsonValue,
};
use crate::strutil::{normalize_seps, replace_backslashes};

verus! {

/// A candidate plugin directory, as observed by one scan of the plugin
/// root: the directory's name, whether it is a directory at all, whether it
/// holds `index.html`, its parsed manifest (`mhPlugin.json`; nothing when the
/// file is absent or unparseable) and its parsed `init.json`, which is only
/// read for identifiers that the registry does not know yet.
pub struct Candidate {
    pub name: String,
    pub is_dir: bool,
    pub has_index: bool,
    pub manifest: Option<JsonValue>,
    pub init: Option<JsonValue>,
}

/// One row of the persisted registry table, keyed by the plugin identifier.
pub struct RegistryRow {
    pub window_id: String,
    pub info: JsonValue,
    pub config: JsonValue,
    pub data: JsonValue,
}

/// The model of a row.
pub open spec fn row_view(r: RegistryRow) -> (Seq<char>, JsonVal, JsonVal, JsonVal) {
    (r.window_id@, r.info@, r.config@, r.data@)
}

/// The models of a list of rows.
pub open spec fn rows_view(rs: Seq<RegistryRow>) -> Seq<(Seq<char>, JsonVal, JsonVal, JsonVal)> {
    Seq::new(rs.len(), |i: int| row_view(rs[i]))
}

/// The identifiers of a list of row models, in order.
pub open spec fn ids_of(rows: Seq<(Seq<char>, JsonVal, JsonVal, JsonVal)>) -> Seq<Seq<char>> {
    Seq::new(rows.len(), |i: int| rows[i].0)
}

/// `n` occurs among `names`.
pub open spec fn names_contain(names: Seq<Seq<char>>, n: Seq<char>) -> bool {
    exists|i: int| 0 <= i < names.len() && names[i] == n
}

impl Clone for RegistryRow {
    /// Deep copy; the copy has the same model as the source value.
    fn clone(&self) -> (r: Self)
        ensures
            row_view(r) == row_view(*self),
    {
        RegistryRow {
            window_id: self.window_id.clone(),
            info: self.info.clone(),
            config: self.config.clone(),
            data: self.data.clone(),
        }
    }
}

/// The empty JSON object, the default for unseeded `info` and `config`.
pub open spec fn empty_obj() -> JsonVal {
    JsonVal::Obj(Seq::<(Seq<char>, JsonVal)>::empty())
}

/// The manifest names the directory: it is an object whose `windowId` field
/// is a string equal to the directory name.  A directory whose manifest says
/// otherwise is never trusted on its name alone.
pub open spec fn manifest_id_matches(m: JsonVal, name: Seq<char>) -> bool {
    &&& m matches JsonVal::Obj(fields)
    &&& obj_lookup(m->Obj_0, "windowId"@) matches Some(v)
    &&& v matches JsonVal::Str(s) && s == name
}

/// A candidate that the synchronization pass accepts: well-formed name, a
/// directory holding `index.html`, a parseable manifest whose `windowId`
/// equals the directory name.
pub open spec fn candidate_valid(c: Candidate) -> bool {
    &&& valid_window_id(c.name@)
    &&& c.is_dir
    &&& c.has_index
    &&& c.manifest matches Some(m) && manifest_id_matches(jview(m), c.name@)
}

/// The `url` injected into a valid candidate's manifest: the absolute path
/// of its `index.html`, separators normalized to `/`.
pub open spec fn url_of(root: Seq<char>, name: Seq<char>) -> Seq<char> {
    normalize_seps(root + "/"@ + name + "/index.html"@)
}

/// The `data` column of a valid candidate: its manifest with the derived
/// `url` field bound.
pub open spec fn data_of(c: Candidate, root: Seq<char>) -> JsonVal
    recommends
        candidate_valid(c),
{
    let m = jview(c.manifest->0);
    JsonVal::Obj(obj_set(m->Obj_0, "url"@, JsonVal::Str(url_of(root, c.name@))))
}

/// The value seeded from `init.json` under `key`, defaulting to the empty
/// object when the file, the object or the key is absent.
pub open spec fn seeded(init: Option<JsonValue>, key: Seq<char>) -> JsonVal {
    match init {
        Some(iv) => match jview(iv) {
            JsonVal::Obj(fields) => match obj_lookup(fields, key) {
                Some(v) => v,
                None => empty_obj(),
            },
            _ => empty_obj(),
        },
        None => empty_obj(),
    }
}

/// The row a valid candidate yields.  `init.json` seeds `info` and `config`
/// only for identifiers the registry does not know yet; known identifiers
/// skip that read and yield empty objects.
pub open spec fn spec_row_of(c: Candidate, is_known: bool, root: Seq<char>) -> (
    Seq<char>,
    JsonVal,
    JsonVal,
    JsonVal,
) {
    (
        c.name@,
        if is_known {
            empty_obj()
        } else {
            seeded(c.init, "info"@)
        },
        if is_known {
            empty_obj()
        } else {
            seeded(c.init, "config"@)
        },
        data_of(c, root),
    )
}

/// Validates one candidate directory and builds its registry row.
///
/// Yields a row exactly when the candidate is valid; an invalid candidate
/// (bad name, not a directory, missing `index.html`, unparseable manifest,
/// or a manifest whose `windowId` does not match the directory name) is
/// excluded, and never treated as known or processed.
pub fn process_candidate(c: &Candidate, is_known: bool, plugin_root: &str) -> (r: Option<
    RegistryRow,
>)
    ensures
        r is Some <==> candidate_valid(*c),
        r matches Some(row) ==> row_view(row) == spec_row_of(*c, is_known, plugin_root@),
{
    if validate_window_id(c.name.as_str()).is_err() {
        return None;
    }
    if !c.is_dir || !c.has_index {
        return None;
    }
    let m = match &c.manifest {
        Some(m) => m,
        None => {
            return None;
        }
    };
    let id_key: Vec<String> = vec!["windowId".to_owned()];
    proof {
        assert(keys_view(id_key@) =~= seq!["windowId"@]);
    }
    match get_path(m, &id_key) {
        Ok(JsonValue::Str(s)) => {
            if !(s == c.name) {
                proof {
                    lemma_single_key_get(jview(*m), "windowId"@);
                }
                return None;
            }
        }
        _ => {
            proof {
                lemma_single_key_get(jview(*m), "windowId"@);
            }
            return None;
        }
    }
    proof {
        lemma_single_key_get(jview(*m), "windowId"@);
        assert(manifest_id_matches(jview(*m), c.name@));
    }
    let mut path = plugin_root.to_owned();
    path.append("/");
    path.append(c.name.as_str());
    path.append("/index.html");
    let url = replace_backslashes(path.as_str());
    let url_key: Vec<String> = vec!["url".to_owned()];
    proof {
        assert(keys_view(url_key@) =~= seq!["url"@]);
    }
    let data = match set_path(m, &url_key, JsonValue::Str(url)) {
        Ok(d) => d,
        Err(_) => {
            proof {
                lemma_single_key_set(jview(*m), "url"@, JsonVal::Str(url_of(plugin_root@, c.name@)));
            }
            // unreachable: the manifest is an object, so a one-segment set
            // cannot fail
            return None;
        }
    };
    proof {
        lemma_single_key_set(jview(*m), "url"@, JsonVal::Str(url_of(plugin_root@, c.name@)));
    }
    let (info, config) = if is_known {
        (JsonValue::empty_object(), JsonValue::empty_object())
    } else {
        (seed_from_init(&c.init, "info"), seed_from_init(&c.init, "config"))
    };
    Some(RegistryRow { window_id: c.name.clone(), info, config, data })
}

/// A one-segment get is exactly an object field lookup.
proof fn lemma_single_key_get(v: JsonVal, key: Seq<char>)
    ensures
        path_get(v, seq![key]) == (match v {
            JsonVal::Obj(fields) => obj_lookup(fields, key),
            _ => None::<JsonVal>,
        }),
{
    let keys = seq![key];
    assert(keys.drop_first() =~= Seq::<Seq<char>>::empty());
    match v {
        JsonVal::Obj(fields) => {
            match obj_lookup(fields, key) {
                Some(child) => {
                    assert(path_get(child, keys.drop_first()) == Some(child));
                }
                None => {}
            }
        }
        _ => {}
    }
}

/// A one-segment set on an object is exactly an object field update.
proof fn lemma_single_key_set(v: JsonVal, key: Seq<char>, val: JsonVal)
    ensures
        v is Obj ==> path_set(v, seq![key], val) == Some(JsonVal::Obj(obj_set(v->Obj_0, key, val))),
{
}

/// Reads `init.json`'s top-level `key`, defaulting to an empty object.
fn seed_from_init(init: &Option<JsonValue>, key: &str) -> (r: JsonValue)
    ensures
        r@ == seeded(*init, key@),
{
    match init {
        Some(iv) => {
            let keys: Vec<String> = vec![key.to_owned()];
            proof {
                assert(keys_view(keys@) =~= seq![key@]);
            }
            match get_path(iv, &keys) {
                Ok(v) => {
                    proof {
                        lemma_single_key_get(jview(*iv), key@);
                    }
                    v
                }
                Err(_) => {
                    proof {
                        lemma_single_key_get(jview(*iv), key@);
                    }
                    JsonValue::empty_object()
                }
            }
        }
        None => JsonValue::empty_object(),
    }
}

/// The batched write plan one synchronization pass computes: rows to insert
/// for valid, previously-unknown directories, and the identifiers of orphan
/// rows to delete.
pub struct SyncPlan {
    pub inserts: Vec<RegistryRow>,
    pub deletes: Vec<String>,
}

/// Some candidate named `n` is valid.
pub open spec fn some_valid_candidate(cs: Seq<Candidate>, n: Seq<char>) -> bool {
    exists|i: int| 0 <= i < cs.len() && candidate_valid(#[trigger] cs[i]) && cs[i].name@ == n
}

/// The rows to insert: one per valid candidate whose identifier the registry
/// does not know, in candidate order.
pub open spec fn spec_inserts(cs: Seq<Candidate>, known: Seq<Seq<char>>, root: Seq<char>) -> Seq<
    (Seq<char>, JsonVal, JsonVal, JsonVal),
>
    decreases cs.len(),
{
    if cs.len() == 0 {
        Seq::empty()
    } else {
        let front = spec_inserts(cs.drop_last(), known, root);
        if candidate_valid(cs.last()) && !names_contain(known, cs.last().name@) {
            front.push(spec_row_of(cs.last(), false, root))
        } else {
            front
        }
    }
}

/// The identifiers to delete: the known identifiers for which no valid
/// candidate directory exists any more, in known order.
pub open spec fn spec_deletes(known: Seq<Seq<char>>, cs: Seq<Candidate>) -> Seq<Seq<char>>
    decreases known.len(),
{
    if known.len() == 0 {
        Seq::empty()
    } else {
        let front = spec_deletes(known.drop_last(), cs);
        if some_valid_candidate(cs, known.last()) {
            front
        } else {
            front.push(known.last())
        }
    }
}

/// Whether `names` holds a string equal to `n`.
fn contains_name(names: &Vec<String>, n: &String) -> (r: bool)
    ensures
        r == names_contain(keys_view(names@), n@),
{
    let ghost nv = keys_view(names@);
    let mut i: usize = 0;
    while i < names.len()
        invariant
            nv == keys_view(names@),
            0 <= i <= names@.len(),
            forall|j: int| 0 <= j < i ==> nv[j] != n@,
        decreases names@.len() - i,
    {
        if names[i] == *n {
            assert(nv[i as int] == n@);
            return true;
        }
        i = i + 1;
    }
    assert forall|j: int| !(0 <= j < nv.len() && nv[j] == n@) by {}
    false
}

/// One synchronization pass over one scan of the plugin root.
///
/// `known` is the registry's current key set; `candidates` is the shallow
/// directory listing with each candidate's evidence.  The plan inserts a row
/// for every valid candidate whose identifier is not yet known, seeding
/// `info`/`config` from `init.json` for exactly those, and deletes every
/// known identifier that no valid candidate carries any more.  Invalid
/// candidates are excluded from both directions.  Candidates may be handed
/// in whichever order their validations complete: the set-level laws below
/// hold for every order.
pub fn plan_sync(known: &Vec<String>, candidates: &Vec<Candidate>, plugin_root: &str) -> (r:
    SyncPlan)
    ensures
        rows_view(r.inserts@) == spec_inserts(candidates@, keys_view(known@), plugin_root@),
        keys_view(r.deletes@) == spec_deletes(keys_view(known@), candidates@),
{
    let ghost known_v = keys_view(known@);
    let ghost cs = candidates@;
    let mut inserts: Vec<RegistryRow> = Vec::new();
    let mut processed: Vec<String> = Vec::new();
    let mut i: usize = 0;
    while i < candidates.len()
        invariant
            known_v == keys_view(known@),
            cs == candidates@,
            0 <= i <= cs.len(),
            rows_view(inserts@) == spec_inserts(cs.take(i as int), known_v, plugin_root@),
            forall|n: Seq<char>|
                names_contain(keys_view(processed@), n) == some_valid_candidate(
                    cs.take(i as int),
                    n,
                ),
        decreases cs.len() - i,
    {
        let c = &candidates[i];
        let is_known = contains_name(known, &c.name);
        let row = process_candidate(c, is_known, plugin_root);
        proof {
            assert(cs.take(i as int + 1).drop_last() =~= cs.take(i as int));
            assert(cs.take(i as int + 1).last() == cs[i as int]);
        }
        match row {
            Some(row) => {
                let ghost old_processed = keys_view(processed@);
                processed.push(c.name.clone());
                proof {
                    assert(keys_view(processed@) =~= old_processed.push(c.name@));
                    assert forall|n: Seq<char>|
                        names_contain(keys_view(processed@), n) == some_valid_candidate(
                            cs.take(i as int + 1),
                            n,
                        ) by {
                        let pv = keys_view(processed@);
                        if names_contain(pv, n) {
                            let j = choose|j: int| 0 <= j < pv.len() && pv[j] == n;
                            if j < old_processed.len() {
                                assert(names_contain(old_processed, n));
                            } else {
                                assert(n == c.name@);
                                assert(candidate_valid(cs.take(i as int + 1)[i as int]));
                            }
                        }
                        if some_valid_candidate(cs.take(i as int + 1), n) {
                            let j = choose|j: int|
                                0 <= j < cs.take(i as int + 1).len() && candidate_valid(
                                    #[trigger] cs.take(i as int + 1)[j],
                                ) && cs.take(i as int + 1)[j].name@ == n;
                            if j < i {
                                assert(some_valid_candidate(cs.take(i as int), n));
                                assert(names_contain(old_processed, n));
                                let l = choose|l: int|
                                    0 <= l < old_processed.len() && old_processed[l] == n;
                                assert(pv[l] == n);
                            } else {
                                assert(pv[pv.len() - 1] == n);
                            }
                        }
                    }
                }
                if !is_known {
                    let ghost old_rows = rows_view(inserts@);
                    inserts.push(row);
                    proof {
                        assert(rows_view(inserts@) =~= old_rows.push(
                            spec_row_of(cs[i as int], false, plugin_root@),
                        ));
                    }
                }
            }
            None => {
                proof {
                    assert forall|n: Seq<char>|
                        names_contain(keys_view(processed@), n) == some_valid_candidate(
                            cs.take(i as int + 1),
                            n,
                        ) by {
                        if some_valid_candidate(cs.take(i as int + 1), n) {
                            let j = choose|j: int|
                                0 <= j < cs.take(i as int + 1).len() && candidate_valid(
                                    #[trigger] cs.take(i as int + 1)[j],
                                ) && cs.take(i as int + 1)[j].name@ == n;
                            assert(j < i);
                            assert(some_valid_candidate(cs.take(i as int), n));
                        }
                    }
                }
            }
        }
        i = i + 1;
    }
    proof {
        assert(cs.take(cs.len() as int) =~= cs);
    }
    let mut deletes: Vec<String> = Vec::new();
    let mut k: usize = 0;
    while k < known.len()
        invariant
            known_v == keys_view(known@),
            cs == candidates@,
            0 <= k <= known_v.len(),
            forall|n: Seq<char>|
                names_contain(keys_view(processed@), n) == some_valid_candidate(cs, n),
            keys_view(deletes@) == spec_deletes(known_v.take(k as int), cs),
        decreases known_v.len() - k,
    {
        proof {
            assert(known_v.take(k as int + 1).drop_last() =~= known_v.take(k as int));
            assert(known_v.take(k as int + 1).last() == known_v[k as int]);
        }
        if !contains_name(&processed, &known[k]) {
            let ghost old_deletes = keys_view(deletes@);
            deletes.push(known[k].clone());
            proof {
                assert(keys_view(deletes@) =~= old_deletes.push(known_v[k as int]));
            }
        }
        k = k + 1;
    }
    proof {
        assert(known_v.take(known_v.len() as int) =~= known_v);
    }
    SyncPlan { inserts, deletes }
}

/// The in-memory model of the persisted registry table.
pub struct Registry {
    pub rows: Vec<RegistryRow>,
}

/// The row models kept by a deletion list: rows whose identifier is not
/// listed, keeping their order.
pub open spec fn spec_retained(
    rows: Seq<(Seq<char>, JsonVal, JsonVal, JsonVal)>,
    deletes: Seq<Seq<char>>,
) -> Seq<(Seq<char>, JsonVal, JsonVal, JsonVal)>
    decreases rows.len(),
{
    if rows.len() == 0 {
        Seq::empty()
    } else {
        let front = spec_retained(rows.drop_last(), deletes);
        if names_contain(deletes, rows.last().0) {
            front
        } else {
            front.push(rows.last())
        }
    }
}

impl Registry {
    /// An empty registry.
    pub fn new() -> (r: Registry)
        ensures
            r.rows@.len() == 0,
    {
        Registry { rows: Vec::new() }
    }

    /// The registry's current key set, in row order.
    pub fn ids(&self) -> (r: Vec<String>)
        ensures
            keys_view(r@) == ids_of(rows_view(self.rows@)),
    {
        let mut r: Vec<String> = Vec::new();
        let mut i: usize = 0;
        while i < self.rows.len()
            invariant
                0 <= i <= self.rows@.len(),
                r@.len() == i,
                forall|j: int| 0 <= j < i ==> (#[trigger] r@[j])@ == self.rows@[j].window_id@,
            decreases self.rows@.len() - i,
        {
            r.push(self.rows[i].window_id.clone());
            i = i + 1;
        }
        proof {
            assert(keys_view(r@) =~= ids_of(rows_view(self.rows@)));
        }
        r
    }

    /// Carries a synchronization plan out: the plan's deletions are applied
    /// first, then its insertions are appended, mirroring the two batched
    /// transactions of the pass.
    pub fn apply_plan(&mut self, plan: &SyncPlan)
        ensures
            rows_view(final(self).rows@) == spec_retained(
                rows_view(old(self).rows@),
                keys_view(plan.deletes@),
            ) + rows_view(plan.inserts@),
    {
        let ghost old_rows = rows_view(self.rows@);
        let ghost dels = keys_view(plan.deletes@);
        let mut kept: Vec<RegistryRow> = Vec::new();
        let mut i: usize = 0;
        while i < self.rows.len()
            invariant
                old_rows == rows_view(self.rows@),
                dels == keys_view(plan.deletes@),
                0 <= i <= self.rows@.len(),
                rows_view(kept@) == spec_retained(old_rows.take(i as int), dels),
            decreases self.rows@.len() - i,
        {
            proof {
                assert(old_rows.take(i as int + 1).drop_last() =~= old_rows.take(i as int));
                assert(old_rows.take(i as int + 1).last() == old_rows[i as int]);
            }
            if !contains_name(&plan.deletes, &self.rows[i].window_id) {
                let ghost old_kept = rows_view(kept@);
                let row = self.rows[i].clone();
                kept.push(row);
                proof {
                    assert(rows_view(kept@) =~= old_kept.push(old_rows[i as int]));
                }
            }
            i = i + 1;
        }
        proof {
            assert(old_rows.take(old_rows.len() as int) =~= old_rows);
        }
        let mut j: usize = 0;
        while j < plan.inserts.len()
            invariant
                dels == keys_view(plan.deletes@),
                0 <= j <= plan.inserts@.len(),
                rows_view(kept@) == spec_retained(old_rows, dels) + rows_view(
                    plan.inserts@.take(j as int),
                ),
            decreases plan.inserts@.len() - j,
        {
            let ghost old_kept = rows_view(kept@);
            let row = plan.inserts[j].clone();
            kept.push(row);
            proof {
                assert(rows_view(plan.inserts@.take(j as int + 1)) =~= rows_view(
                    plan.inserts@.take(j as int),
                ).push(row_view(plan.inserts@[j as int])));
                assert(rows_view(kept@) =~= old_kept.push(row_view(plan.inserts@[j as int])));
            }
            j = j + 1;
        }
        proof {
            assert(plan.inserts@.take(plan.inserts@.len() as int) =~= plan.inserts@);
            assert(rows_view(kept@) =~= spec_retained(old_rows, dels) + rows_view(plan.inserts@));
        }
        self.rows = kept;
    }
}

/// An identifier is deleted exactly when it was known and no valid candidate
/// directory carries it any more: the orphan rows, and nothing else.
pub proof fn lemma_deletes_exactly_orphans(
    known: Seq<Seq<char>>,
    cs: Seq<Candidate>,
    n: Seq<char>,
)
    ensures
        names_contain(spec_deletes(known, cs), n) <==> (names_contain(known, n)
            && !some_valid_candidate(cs, n)),
    decreases known.len(),
{
    if known.len() > 0 {
        lemma_deletes_exactly_orphans(known.drop_last(), cs, n);
        let front = spec_deletes(known.drop_last(), cs);
        let whole = spec_deletes(known, cs);
        if names_contain(whole, n) {
            let j = choose|j: int| 0 <= j < whole.len() && whole[j] == n;
            if j < front.len() {
                assert(names_contain(front, n));
                let l = choose|l: int| 0 <= l < known.drop_last().len()
                    && known.drop_last()[l] == n;
                assert(known[l] == n);
            } else {
                assert(whole[j] == known.last());
                assert(known[known.len() - 1] == n);
            }
        }
        if names_contain(known, n) && !some_valid_candidate(cs, n) {
            let j = choose|j: int| 0 <= j < known.len() && known[j] == n;
            if j < known.len() - 1 {
                assert(known.drop_last()[j] == n);
                assert(names_contain(front, n));
                let l = choose|l: int| 0 <= l < front.len() && front[l] == n;
                assert(whole[l] == n);
            } else {
                assert(whole[whole.len() - 1] == n);
            }
        }
        if names_contain(front, n) {
            let l = choose|l: int| 0 <= l < front.len() && front[l] == n;
            assert(whole[l] == n);
        }
    }
}

/// A row is inserted exactly for the identifiers of valid candidates that
/// the registry does not know yet: new plugins, and nothing else.
pub proof fn lemma_inserts_exactly_new(
    cs: Seq<Candidate>,
    known: Seq<Seq<char>>,
    root: Seq<char>,
    n: Seq<char>,
)
    ensures
        names_contain(ids_of(spec_inserts(cs, known, root)), n) <==> (some_valid_candidate(cs, n)
            && !names_contain(known, n)),
    decreases cs.len(),
{
    if cs.len() > 0 {
        lemma_inserts_exactly_new(cs.drop_last(), known, root, n);
        let front = spec_inserts(cs.drop_last(), known, root);
        let whole = spec_inserts(cs, known, root);
        let front_ids = ids_of(front);
        let whole_ids = ids_of(whole);
        assert(forall|j: int| 0 <= j < front.len() ==> whole[j] == front[j]);
        if names_contain(whole_ids, n) {
            let j = choose|j: int| 0 <= j < whole_ids.len() && whole_ids[j] == n;
            if j < front.len() {
                assert(front[j] == whole[j]);
                assert(front_ids[j] == front[j].0 && whole_ids[j] == whole[j].0);
                assert(front_ids[j] == n);
                let l = choose|l: int|
                    0 <= l < cs.drop_last().len() && candidate_valid(
                        #[trigger] cs.drop_last()[l],
                    ) && cs.drop_last()[l].name@ == n;
                assert(candidate_valid(cs[l]) && cs[l].name@ == n);
            } else {
                assert(candidate_valid(cs.last()) && cs.last().name@ == n);
                assert(cs[cs.len() - 1].name@ == n);
            }
        }
        if some_valid_candidate(cs, n) && !names_contain(known, n) {
            let j = choose|j: int|
                0 <= j < cs.len() && candidate_valid(#[trigger] cs[j]) && cs[j].name@ == n;
            if j < cs.len() - 1 {
                assert(cs.drop_last()[j] == cs[j]);
                assert(some_valid_candidate(cs.drop_last(), n));
                assert(names_contain(front_ids, n));
                let l = choose|l: int| 0 <= l < front_ids.len() && front_ids[l] == n;
                assert(whole_ids[l] == n);
            } else {
                assert(candidate_valid(cs.last()) && cs.last().name@ == n);
                assert(whole_ids[whole.len() - 1] == n);
            }
        }
        if names_contain(front_ids, n) {
            let l = choose|l: int| 0 <= l < front_ids.len() && front_ids[l] == n;
            assert(whole_ids[l] == n);
        }
    }
}

/// Idempotence of the pass: when the registry's key set already equals the
/// set of valid candidate identifiers, the plan performs no database write:
/// no row is inserted and none is deleted.
pub proof fn lemma_sync_idempotent(known: Seq<Seq<char>>, cs: Seq<Candidate>, root: Seq<char>)
    requires
        forall|n: Seq<char>| names_contain(known, n) <==> some_valid_candidate(cs, n),
    ensures
        spec_inserts(cs, known, root) == Seq::<(Seq<char>, JsonVal, JsonVal, JsonVal)>::empty(),
        spec_deletes(known, cs) == Seq::<Seq<char>>::empty(),
{
    let ins = spec_inserts(cs, known, root);
    if ins.len() > 0 {
        let n = ids_of(ins)[0];
        assert(names_contain(ids_of(ins), n));
        lemma_inserts_exactly_new(cs, known, root, n);
    }
    assert(ins =~= Seq::<(Seq<char>, JsonVal, JsonVal, JsonVal)>::empty());
    let dels = spec_deletes(known, cs);
    if dels.len() > 0 {
        let n = dels[0];
        assert(names_contain(dels, n));
        lemma_deletes_exactly_orphans(known, cs, n);
    }
    assert(dels =~= Seq::<Seq<char>>::empty());
}

/// Convergence of the pass: whatever the registry held before, after one
/// pass over a scan its key set is exactly the set of valid candidate
/// identifiers of that scan.
pub proof fn lemma_sync_fixed_point(
    rows: Seq<(Seq<char>, JsonVal, JsonVal, JsonVal)>,
    cs: Seq<Candidate>,
    root: Seq<char>,
    n: Seq<char>,
)
    ensures
        ({
            let known = ids_of(rows);
            let after = spec_retained(rows, spec_deletes(known, cs)) + spec_inserts(
                cs,
                known,
                root,
            );
            names_contain(ids_of(after), n) <==> some_valid_candidate(cs, n)
        }),
{
    let known = ids_of(rows);
    let dels = spec_deletes(known, cs);
    let kept = spec_retained(rows, dels);
    let ins = spec_inserts(cs, known, root);
    let after = kept + ins;
    lemma_deletes_exactly_orphans(known, cs, n);
    lemma_inserts_exactly_new(cs, known, root, n);
    lemma_retained_ids(rows, dels, n);
    assert forall|m: Seq<char>|
        names_contain(ids_of(after), m) <==> (names_contain(ids_of(kept), m) || names_contain(
            ids_of(ins),
            m,
        )) by {
        let ka = ids_of(after);
        if names_contain(ka, m) {
            let j = choose|j: int| 0 <= j < ka.len() && ka[j] == m;
            if j < kept.len() {
                assert(ids_of(kept)[j] == m);
            } else {
                assert(ids_of(ins)[j - kept.len()] == m);
            }
        }
        if names_contain(ids_of(kept), m) {
            let j = choose|j: int| 0 <= j < ids_of(kept).len() && ids_of(kept)[j] == m;
            assert(ka[j] == m);
        }
        if names_contain(ids_of(ins), m) {
            let j = choose|j: int| 0 <= j < ids_of(ins).len() && ids_of(ins)[j] == m;
            assert(ka[kept.len() + j] == m);
        }
    }
    if names_contain(ids_of(kept), n) {
        assert(names_contain(known, n) && !names_contain(dels, n));
    }
    if some_valid_candidate(cs, n) && names_contain(known, n) {
        assert(!names_contain(dels, n));
        assert(names_contain(ids_of(kept), n));
    }
}

/// A row survives deletion exactly when its identifier is not listed.
proof fn lemma_retained_ids(
    rows: Seq<(Seq<char>, JsonVal, JsonVal, JsonVal)>,
    deletes: Seq<Seq<char>>,
    n: Seq<char>,
)
    ensures
        names_contain(ids_of(spec_retained(rows, deletes)), n) <==> (names_contain(
            ids_of(rows),
            n,
        ) && !names_contain(deletes, n)),
    decreases rows.len(),
{
    if rows.len() > 0 {
        lemma_retained_ids(rows.drop_last(), deletes, n);
        let front = spec_retained(rows.drop_last(), deletes);
        let whole = spec_retained(rows, deletes);
        let front_ids = ids_of(front);
        let whole_ids = ids_of(whole);
        assert(forall|j: int| 0 <= j < rows.drop_last().len() ==> #[trigger] ids_of(
            rows.drop_last(),
        )[j] == ids_of(rows)[j]);
        if names_contain(whole_ids, n) {
            let j = choose|j: int| 0 <= j < whole_ids.len() && whole_ids[j] == n;
            if j < front.len() {
                assert(front[j] == whole[j]);
                assert(front_ids[j] == front[j].0 && whole_ids[j] == whole[j].0);
                assert(front_ids[j] == n);
                let l = choose|l: int|
                    0 <= l < ids_of(rows.drop_last()).len() && ids_of(rows.drop_last())[l] == n;
                assert(ids_of(rows)[l] == n);
            } else {
                assert(whole[j] == rows.last());
                assert(ids_of(rows)[rows.len() - 1] == n);
            }
        }
        if names_contain(ids_of(rows), n) && !names_contain(deletes, n) {
            let j = choose|j: int| 0 <= j < ids_of(rows).len() && ids_of(rows)[j] == n;
            if j < rows.len() - 1 {
                assert(ids_of(rows.drop_last())[j] == n);
                assert(names_contain(front_ids, n));
                let l = choose|l: int| 0 <= l < front_ids.len() && front_ids[l] == n;
                assert(whole_ids[l] == n);
            } else {
                assert(rows.last().0 == n);
                assert(whole_ids[whole.len() - 1] == n);
            }
        }
        if names_contain(front_ids, n) {
            let l = choose|l: int| 0 <= l < front_ids.len() && front_ids[l] == n;
            assert(whole_ids[l] == n);
        }
    }
}

/// All names pairwise distinct.
pub open spec fn distinct_names(names: Seq<Seq<char>>) -> bool {
    forall|i: int, j: int| 0 <= i < j < names.len() ==> names[i] != names[j]
}

/// Rows kept by a deletion list keep distinct identifiers.
proof fn lemma_retained_distinct(
    rows: Seq<(Seq<char>, JsonVal, JsonVal, JsonVal)>,
    deletes: Seq<Seq<char>>,
)
    requires
        distinct_names(ids_of(rows)),
    ensures
        distinct_names(ids_of(spec_retained(rows, deletes))),
        forall|n: Seq<char>|
            names_contain(ids_of(spec_retained(rows, deletes)), n) ==> names_contain(
                ids_of(rows),
                n,
            ),
    decreases rows.len(),
{
    if rows.len() > 0 {
        assert(forall|j: int| 0 <= j < rows.drop_last().len() ==> #[trigger] ids_of(
            rows.drop_last(),
        )[j] == ids_of(rows)[j]);
        assert(distinct_names(ids_of(rows.drop_last())));
        lemma_retained_distinct(rows.drop_last(), deletes);
        let front = spec_retained(rows.drop_last(), deletes);
        let whole = spec_retained(rows, deletes);
        assert forall|n: Seq<char>|
            names_contain(ids_of(whole), n) implies names_contain(ids_of(rows), n) by {
            lemma_retained_ids(rows, deletes, n);
        }
        if !names_contain(deletes, rows.last().0) {
            assert(whole == front.push(rows.last()));
            assert forall|i: int, j: int|
                0 <= i < j < ids_of(whole).len() implies ids_of(whole)[i] != ids_of(whole)[j] by {
                if j == whole.len() - 1 {
                    assert(ids_of(whole)[i] == ids_of(front)[i]);
                    if ids_of(front)[i] == rows.last().0 {
                        assert(names_contain(ids_of(front), rows.last().0));
                        assert(names_contain(ids_of(rows.drop_last()), rows.last().0));
                        let l = choose|l: int|
                            0 <= l < ids_of(rows.drop_last()).len() && ids_of(
                                rows.drop_last(),
                            )[l] == rows.last().0;
                        assert(ids_of(rows)[l] == rows.last().0);
                        assert(l < rows.len() - 1);
                        assert(ids_of(rows)[rows.len() - 1] == rows.last().0);
                        assert(ids_of(rows)[l] != ids_of(rows)[rows.len() - 1]);
                    }
                } else {
                    assert(ids_of(whole)[i] == ids_of(front)[i]);
                    assert(ids_of(whole)[j] == ids_of(front)[j]);
                }
            }
        }
    }
}

/// Rows inserted for candidates with pairwise distinct names carry
/// pairwise distinct identifiers.
proof fn lemma_inserts_distinct(cs: Seq<Candidate>, known: Seq<Seq<char>>, root: Seq<char>)
    requires
        forall|i: int, j: int| 0 <= i < j < cs.len() ==> (#[trigger] cs[i]).name@ != (
        #[trigger] cs[j]).name@,
    ensures
        distinct_names(ids_of(spec_inserts(cs, known, root))),
    decreases cs.len(),
{
    if cs.len() > 0 {
        assert(forall|j: int| 0 <= j < cs.drop_last().len() ==> #[trigger] cs.drop_last()[j]
            == cs[j]);
        lemma_inserts_distinct(cs.drop_last(), known, root);
        let front = spec_inserts(cs.drop_last(), known, root);
        let whole = spec_inserts(cs, known, root);
        if candidate_valid(cs.last()) && !names_contain(known, cs.last().name@) {
            assert(whole == front.push(spec_row_of(cs.last(), false, root)));
            assert forall|i: int, j: int|
                0 <= i < j < ids_of(whole).len() implies ids_of(whole)[i] != ids_of(whole)[j] by {
                if j == whole.len() - 1 {
                    assert(ids_of(whole)[i] == ids_of(front)[i]);
                    assert(ids_of(whole)[j] == cs.last().name@);
                    if ids_of(front)[i] == cs.last().name@ {
                        assert(names_contain(ids_of(front), cs.last().name@));
                        lemma_inserts_exactly_new(cs.drop_last(), known, root, cs.last().name@);
                        let l = choose|l: int|
                            0 <= l < cs.drop_last().len() && candidate_valid(
                                #[trigger] cs.drop_last()[l],
                            ) && cs.drop_last()[l].name@ == cs.last().name@;
                        assert(cs[l].name@ == cs[cs.len() - 1].name@);
                    }
                } else {
                    assert(ids_of(whole)[i] == ids_of(front)[i]);
                    assert(ids_of(whole)[j] == ids_of(front)[j]);
                }
            }
        }
    }
}

/// The primary-key invariant of the registry: when the key set is unique
/// and the scanned directory names are unique (as a directory listing always
/// is), the key set after one synchronization pass is unique again.
pub proof fn lemma_sync_preserves_unique_keys(
    rows: Seq<(Seq<char>, JsonVal, JsonVal, JsonVal)>,
    cs: Seq<Candidate>,
    root: Seq<char>,
)
    requires
        distinct_names(ids_of(rows)),
        forall|i: int, j: int| 0 <= i < j < cs.len() ==> (#[trigger] cs[i]).name@ != (
        #[trigger] cs[j]).name@,
    ensures
        ({
            let known = ids_of(rows);
            let after = spec_retained(rows, spec_deletes(known, cs)) + spec_inserts(
                cs,
                known,
                root,
            );
            distinct_names(ids_of(after))
        }),
{
    let known = ids_of(rows);
    let dels = spec_deletes(known, cs);
    let kept = spec_retained(rows, dels);
    let ins = spec_inserts(cs, known, root);
    let after = kept + ins;
    lemma_retained_distinct(rows, dels);
    lemma_inserts_distinct(cs, known, root);
    assert forall|i: int, j: int|
        0 <= i < j < ids_of(after).len() implies ids_of(after)[i] != ids_of(after)[j] by {
        if j < kept.len() {
            assert(ids_of(after)[i] == ids_of(kept)[i]);
            assert(ids_of(after)[j] == ids_of(kept)[j]);
        } else if i >= kept.len() {
            assert(ids_of(after)[i] == ids_of(ins)[i - kept.len()]);
            assert(ids_of(after)[j] == ids_of(ins)[j - kept.len()]);
        } else {
            let a = ids_of(after)[i];
            let b = ids_of(after)[j];
            assert(a == ids_of(kept)[i]);
            assert(b == ids_of(ins)[j - kept.len()]);
            if a == b {
                assert(names_contain(ids_of(kept), a));
                assert(names_contain(ids_of(ins), b));
                lemma_retained_ids(rows, dels, a);
                lemma_inserts_exactly_new(cs, known, root, b);
            }
        }
    }
}

} // verus!
