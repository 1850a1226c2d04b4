//! The durable progress store and result sink, modelled in memory: the
//! cursor state per platform, and the contents of each platform's
//! result file. Callers persist what the mutating operations hand back.

use vstd::prelude::*;
use vstd::string::StringExecFns;
use crate::csv_row::{csv_header, csv_record, push_csv_bool, push_csv_field, render_csv_header};
use crate::state_json::{
    entries_view, entries_wf, parse_state_doc, render_state_doc, simple_key, spec_parse, state_doc,
    StateEntry,
};
use crate::text::{eq_str, push_char};

verus! {

/// A matched repository, as it is durably recorded.
#[derive(Debug, Clone, PartialEq, Eq)]
pub struct Repo {
    pub id: String,
    pub name: String,
    pub has_cargo_toml: bool,
    pub has_cargo_lock: bool,
}

impl Repo {
    /// The data row this record serializes to.
    pub open spec fn row(self) -> Seq<char> {
        csv_record(self.id@, self.name@, self.has_cargo_toml, self.has_cargo_lock)
    }
}

/// The in-memory mirror of one platform's result file.
#[derive(Debug, Clone, PartialEq, Eq)]
pub struct PlatformFile {
    pub platform: String,
    pub contents: String,
}

/// First match wins: the value stored under `k`, if any.
pub open spec fn lookup<V>(es: Seq<(Seq<char>, V)>, k: Seq<char>) -> Option<V>
    decreases es.len(),
{
    if es.len() == 0 {
        None
    } else if es[0].0 == k {
        Some(es[0].1)
    } else {
        lookup(es.drop_first(), k)
    }
}

/// Ways a store operation can refuse its input.
#[derive(Debug, Clone, Copy, PartialEq, Eq, Structural)]
pub enum DataError {
    /// The platform name cannot be carried by the durable document.
    UnstorablePlatform,
    /// The durable document did not read back as a well-formed state.
    CorruptState,
}

/// What a record append asks the caller to persist.
pub struct StoreOutcome {
    /// True when no output existed for the platform yet: the chunk then
    /// opens with the header row.
    pub created: bool,
    /// The characters to append to the platform's result file.
    pub chunk: String,
}

/// The progress store and result sink of one crawl process.
pub struct Data {
    pub state: Vec<StateEntry>,
    pub outputs: Vec<PlatformFile>,
}

impl Data {
    /// The cursor state as key/value pairs.
    pub open spec fn state_view(self) -> Seq<(Seq<char>, u64)> {
        entries_view(self.state@)
    }

    /// The result files as name/contents pairs.
    pub open spec fn outputs_view(self) -> Seq<(Seq<char>, Seq<char>)> {
        self.outputs@.map_values(|f: PlatformFile| (f.platform@, f.contents@))
    }

    /// Well-formedness: state keys simple and unique, output names
    /// unique.
    pub open spec fn wf(self) -> bool {
        &&& entries_wf(self.state_view())
        &&& forall|i: int, j: int|
            0 <= i < j < self.outputs@.len() ==> self.outputs@[i].platform@
                != self.outputs@[j].platform@
    }

    /// A fresh store: nothing loaded, nothing written.
    pub fn new() -> (d: Self)
        ensures
            d.wf(),
            d.state_view() == Seq::<(Seq<char>, u64)>::empty(),
            d.outputs_view() == Seq::<(Seq<char>, Seq<char>)>::empty(),
    {
        let d = Data { state: Vec::new(), outputs: Vec::new() };
        proof {
            assert(d.state_view() =~= Seq::<(Seq<char>, u64)>::empty());
            assert(d.outputs_view() =~= Seq::<(Seq<char>, Seq<char>)>::empty());
        }
        d
    }

    /// Replace the cursor state with what a durable document holds.
    /// Succeeds exactly on documents that read back as a well-formed
    /// state; on refusal the store is left untouched.
    pub fn load_state(&mut self, text: &str) -> (r: Result<(), DataError>)
        ensures
            final(self).outputs == old(self).outputs,
            match r {
                Ok(_) => {
                    &&& spec_parse(text@) matches Some(es) && entries_wf(es)
                    &&& final(self).state_view() == spec_parse(text@)->Some_0
                    &&& entries_wf(final(self).state_view())
                },
                Err(e) => {
                    &&& e == DataError::CorruptState
                    &&& *final(self) == *old(self)
                    &&& !(spec_parse(text@) matches Some(es) && entries_wf(es))
                },
            },
    {
        match parse_state_doc(text) {
            Some(es) => {
                if check_entries_wf(&es) {
                    self.state = es;
                    Ok(())
                } else {
                    Err(DataError::CorruptState)
                }
            },
            None => Err(DataError::CorruptState),
        }
    }

    /// The cursor last stored for `platform`, if any.
    pub fn get_last_id(&self, platform: &str) -> (r: Option<u64>)
        ensures
            r == lookup(self.state_view(), platform@),
    {
        let n = self.state.len();
        let mut i: usize = 0;
        proof {
            assert(self.state_view().skip(0) =~= self.state_view());
        }
        while i < n
            invariant
                n == self.state@.len(),
                0 <= i <= n,
                lookup(self.state_view(), platform@) == lookup(
                    self.state_view().skip(i as int),
                    platform@,
                ),
            decreases n - i,
        {
            let e = &self.state[i];
            proof {
                assert(self.state_view().skip(i as int)[0] == (e.platform@, e.last_id));
                assert(self.state_view().skip(i as int).drop_first() =~= self.state_view().skip(
                    i + 1,
                ));
            }
            if eq_str(e.platform.as_str(), platform) {
                return Some(e.last_id);
            }
            i += 1;
        }
        proof {
            assert(self.state_view().skip(n as int) =~= Seq::<(Seq<char>, u64)>::empty());
        }
        None
    }

    /// Store `id` as the cursor for `platform` and hand back the whole
    /// document to persist, write-through. Refused only for names the
    /// document cannot carry.
    pub fn set_last_id(&mut self, platform: &str, id: u64) -> (r: Result<String, DataError>)
        requires
            old(self).wf(),
        ensures
            final(self).wf(),
            final(self).outputs == old(self).outputs,
            if simple_key(platform@) {
                &&& lookup(final(self).state_view(), platform@) == Some(id)
                &&& forall|k: Seq<char>|
                    k != platform@ ==> lookup(final(self).state_view(), k) == lookup(
                        old(self).state_view(),
                        k,
                    )
                &&& r matches Ok(doc) && doc@ == state_doc(final(self).state_view())
            } else {
                &&& r matches Err(e) && e == DataError::UnstorablePlatform
                &&& *final(self) == *old(self)
            },
    {
        if !is_simple_key(platform) {
            return Err(DataError::UnstorablePlatform);
        }
        let ghost old_view = self.state_view();
        let n = self.state.len();
        let mut i: usize = 0;
        let mut found = false;
        while i < n && !found
            invariant
                n == self.state@.len(),
                0 <= i <= n,
                !found ==> forall|j: int| 0 <= j < i ==> self.state_view()[j].0 != platform@,
                found ==> i < n && self.state_view()[i as int].0 == platform@ && (forall|j: int|
                    0 <= j < i ==> self.state_view()[j].0 != platform@),
            decreases n - i + (if found { 0int } else { 1int }),
        {
            let e = &self.state[i];
            proof {
                assert(self.state_view()[i as int] == (e.platform@, e.last_id));
            }
            if eq_str(e.platform.as_str(), platform) {
                found = true;
            } else {
                i += 1;
            }
        }
        if found {
            self.state[i] = StateEntry { platform: platform.to_owned(), last_id: id };
            proof {
                assert(self.state_view() =~= old_view.update(i as int, (platform@, id)));
                lemma_lookup_update(old_view, i as int, platform@, id);
                assert(entries_wf(self.state_view())) by {
                    assert(forall|j: int|
                        0 <= j < old_view.len() && j != i ==> self.state_view()[j]
                            == old_view[j]);
                }
            }
        } else {
            self.state.push(StateEntry { platform: platform.to_owned(), last_id: id });
            proof {
                assert(self.state_view() =~= old_view.push((platform@, id)));
                lemma_lookup_push(old_view, platform@, id);
                assert(entries_wf(self.state_view())) by {
                    assert(forall|j: int|
                        0 <= j < old_view.len() ==> self.state_view()[j] == old_view[j]);
                }
            }
        }
        let doc = render_state_doc(&self.state);
        Ok(doc)
    }

    /// Record one matched repository for `platform`: append its row to
    /// the platform's output, creating the output with the header row
    /// first when none exists. Prior contents are preserved unchanged;
    /// the returned chunk is exactly what was appended.
    pub fn store_repo(&mut self, platform: &str, repo: Repo) -> (r: StoreOutcome)
        requires
            old(self).wf(),
        ensures
            final(self).wf(),
            final(self).state == old(self).state,
            match lookup(old(self).outputs_view(), platform@) {
                None => {
                    &&& r.created == true
                    &&& r.chunk@ == csv_header() + repo.row()
                    &&& lookup(final(self).outputs_view(), platform@) == Some(
                        csv_header() + repo.row(),
                    )
                },
                Some(prior) => {
                    &&& r.created == false
                    &&& r.chunk@ == repo.row()
                    &&& lookup(final(self).outputs_view(), platform@) == Some(
                        prior + repo.row(),
                    )
                },
            },
            forall|k: Seq<char>|
                k != platform@ ==> lookup(final(self).outputs_view(), k) == lookup(
                    old(self).outputs_view(),
                    k,
                ),
    {
        let row = record_row(&repo);
        let ghost old_view = self.outputs_view();
        let n = self.outputs.len();
        let mut i: usize = 0;
        let mut found = false;
        while i < n && !found
            invariant
                n == self.outputs@.len(),
                0 <= i <= n,
                !found ==> forall|j: int| 0 <= j < i ==> self.outputs_view()[j].0 != platform@,
                found ==> i < n && self.outputs_view()[i as int].0 == platform@ && (forall|j: int|
                    0 <= j < i ==> self.outputs_view()[j].0 != platform@),
            decreases n - i + (if found { 0int } else { 1int }),
        {
            let f = &self.outputs[i];
            proof {
                assert(self.outputs_view()[i as int] == (f.platform@, f.contents@));
            }
            if eq_str(f.platform.as_str(), platform) {
                found = true;
            } else {
                i += 1;
            }
        }
        if found {
            let ghost prior = self.outputs@[i as int].contents@;
            proof {
                lemma_lookup_found(old_view, i as int, platform@);
                assert(lookup(old_view, platform@) == Some(prior));
            }
            let ghost old_files = self.outputs@;
            let mut f = self.outputs.remove(i);
            f.contents.append(row.as_str());
            let ghost f2 = f;
            self.outputs.insert(i, f);
            proof {
                assert(self.outputs@ =~= old_files.update(i as int, f2));
                assert(f2.platform@ == platform@);
                assert(self.outputs_view() =~= old_view.update(
                    i as int,
                    (platform@, prior + row@),
                ));
                lemma_lookup_update(old_view, i as int, platform@, prior + row@);
                assert(old_files == old(self).outputs@);
                assert forall|a: int, b: int|
                    0 <= a < b < self.outputs@.len() implies self.outputs@[a].platform@
                    != self.outputs@[b].platform@ by {
                    assert(old(self).outputs@[a].platform@ != old(self).outputs@[b].platform@);
                    if a != i {
                        assert(self.outputs@[a] == old_files[a]);
                    }
                    if b != i {
                        assert(self.outputs@[b] == old_files[b]);
                    }
                    assert(self.outputs@[i as int].platform@ == old_files[i as int].platform@);
                }
                assert(self.wf());
            }
            StoreOutcome { created: false, chunk: row }
        } else {
            proof {
                lemma_lookup_absent(old_view, platform@);
            }
            let mut chunk = render_csv_header();
            chunk.append(row.as_str());
            let mut contents = render_csv_header();
            contents.append(row.as_str());
            let ghost old_files = self.outputs@;
            self.outputs.push(PlatformFile { platform: platform.to_owned(), contents });
            proof {
                assert(self.outputs_view() =~= old_view.push((platform@, csv_header() + row@)));
                lemma_lookup_push(old_view, platform@, csv_header() + row@);
                assert(old_files == old(self).outputs@);
                assert forall|a: int, b: int|
                    0 <= a < b < self.outputs@.len() implies self.outputs@[a].platform@
                    != self.outputs@[b].platform@ by {
                    assert(self.outputs@[a] == old_files[a]);
                    if b < old_files.len() {
                        assert(old(self).outputs@[a].platform@ != old(
                            self,
                        ).outputs@[b].platform@);
                        assert(self.outputs@[b] == old_files[b]);
                    } else {
                        assert(self.outputs@[b].platform@ == platform@);
                        assert(old_view[a].0 == old_files[a].platform@);
                        assert(old_view[a].0 != platform@);
                    }
                }
                assert(self.wf());
            }
            StoreOutcome { created: true, chunk }
        }
    }
}

/// Render one record as its data row.
pub fn record_row(repo: &Repo) -> (r: String)
    ensures
        r@ == repo.row(),
{
    let mut out = String::new();
    push_csv_field(&mut out, repo.id.as_str());
    push_char(&mut out, ',');
    push_csv_field(&mut out, repo.name.as_str());
    push_char(&mut out, ',');
    push_csv_bool(&mut out, repo.has_cargo_toml);
    push_char(&mut out, ',');
    push_csv_bool(&mut out, repo.has_cargo_lock);
    push_char(&mut out, '\n');
    proof {
        assert(out@ =~= repo.row());
    }
    out
}

/// Decide whether the durable document can carry this name verbatim.
pub fn is_simple_key(s: &str) -> (r: bool)
    ensures
        r == simple_key(s@),
{
    let n = s.unicode_len();
    let mut i: usize = 0;
    while i < n
        invariant
            n == s@.len(),
            0 <= i <= n,
            forall|j: int|
                0 <= j < i ==> (s@[j] as u32) >= 32 && s@[j] != '"' && s@[j] != '\\',
        decreases n - i,
    {
        let c = s.get_char(i);
        if (c as u32) < 32 || c == '"' || c == '\\' {
            return false;
        }
        i += 1;
    }
    true
}

/// Decide whether loaded entries form a well-formed state.
fn check_entries_wf(es: &Vec<StateEntry>) -> (r: bool)
    ensures
        r == entries_wf(entries_view(es@)),
{
    let ghost v = entries_view(es@);
    let n = es.len();
    let mut i: usize = 0;
    while i < n
        invariant
            n == es@.len(),
            v == entries_view(es@),
            0 <= i <= n,
            forall|j: int| 0 <= j < i ==> simple_key(#[trigger] v[j].0),
            forall|a: int, b: int| 0 <= a < b < i ==> v[a].0 != v[b].0,
        decreases n - i,
    {
        let e = &es[i];
        proof {
            assert(v[i as int] == (e.platform@, e.last_id));
        }
        if !is_simple_key(e.platform.as_str()) {
            proof {
                assert(!simple_key(v[i as int].0));
                assert(!entries_wf(v));
            }
            return false;
        }
        let mut j: usize = 0;
        while j < i
            invariant
                n == es@.len(),
                v == entries_view(es@),
                0 <= j <= i < n,
                v[i as int].0 == e.platform@,
                forall|a: int| 0 <= a < j ==> v[a].0 != v[i as int].0,
            decreases i - j,
        {
            let p = &es[j];
            proof {
                assert(v[j as int] == (p.platform@, p.last_id));
            }
            if eq_str(p.platform.as_str(), e.platform.as_str()) {
                proof {
                    assert(v[j as int].0 == v[i as int].0);
                    assert(!entries_wf(v));
                }
                return false;
            }
            j += 1;
        }
        i += 1;
    }
    true
}

/// A found first occurrence pins the looked-up value.
proof fn lemma_lookup_found<V>(es: Seq<(Seq<char>, V)>, i: int, k: Seq<char>)
    requires
        0 <= i < es.len(),
        es[i].0 == k,
        forall|j: int| 0 <= j < i ==> es[j].0 != k,
    ensures
        lookup(es, k) == Some(es[i].1),
    decreases i,
{
    if i > 0 {
        assert(es.drop_first()[i - 1] == es[i]);
        assert(forall|j: int| 0 <= j < i - 1 ==> es.drop_first()[j] == es[j + 1]);
        lemma_lookup_found(es.drop_first(), i - 1, k);
    }
}

/// A key under none of the entries looks up to nothing.
proof fn lemma_lookup_absent<V>(es: Seq<(Seq<char>, V)>, k: Seq<char>)
    requires
        forall|j: int| 0 <= j < es.len() ==> es[j].0 != k,
    ensures
        lookup(es, k) is None,
    decreases es.len(),
{
    if es.len() > 0 {
        assert(forall|j: int|
            0 <= j < es.drop_first().len() ==> es.drop_first()[j] == es[j + 1]);
        lemma_lookup_absent(es.drop_first(), k);
    }
}

/// Replacing the first occurrence of `k` changes the lookup of `k` to
/// the new value and no other.
proof fn lemma_lookup_update<V>(es: Seq<(Seq<char>, V)>, i: int, k: Seq<char>, v: V)
    requires
        0 <= i < es.len(),
        es[i].0 == k,
        forall|j: int| 0 <= j < i ==> es[j].0 != k,
    ensures
        lookup(es.update(i, (k, v)), k) == Some(v),
        forall|k2: Seq<char>|
            k2 != k ==> lookup(es.update(i, (k, v)), k2) == lookup(es, k2),
    decreases i,
{
    let es2 = es.update(i, (k, v));
    assert(es2.len() == es.len());
    if i == 0 {
        assert(es2[0] == (k, v));
        assert(es2.drop_first() =~= es.drop_first());
        assert(lookup(es2, k) == Some(v));
        assert forall|k2: Seq<char>| k2 != k implies lookup(es2, k2) == lookup(es, k2) by {
            assert(es[0].0 == k);
            assert(lookup(es2, k2) == lookup(es2.drop_first(), k2));
            assert(lookup(es, k2) == lookup(es.drop_first(), k2));
        }
    } else {
        assert(es2[0] == es[0]);
        assert(es2.drop_first() =~= es.drop_first().update(i - 1, (k, v)));
        assert(es.drop_first()[i - 1] == es[i]);
        assert(forall|j: int| 0 <= j < i - 1 ==> es.drop_first()[j] == es[j + 1]);
        lemma_lookup_update(es.drop_first(), i - 1, k, v);
        assert(es[0].0 != k);
        assert(lookup(es2, k) == lookup(es2.drop_first(), k));
        assert forall|k2: Seq<char>| k2 != k implies lookup(es2, k2) == lookup(es, k2) by {
            if es[0].0 == k2 {
                assert(lookup(es2, k2) == Some(es2[0].1));
                assert(lookup(es, k2) == Some(es[0].1));
            } else {
                assert(lookup(es2, k2) == lookup(es2.drop_first(), k2));
                assert(lookup(es, k2) == lookup(es.drop_first(), k2));
            }
        }
    }
}

/// Appending a fresh key changes the lookup of that key to the new
/// value and no other.
proof fn lemma_lookup_push<V>(es: Seq<(Seq<char>, V)>, k: Seq<char>, v: V)
    requires
        forall|j: int| 0 <= j < es.len() ==> es[j].0 != k,
    ensures
        lookup(es.push((k, v)), k) == Some(v),
        forall|k2: Seq<char>| k2 != k ==> lookup(es.push((k, v)), k2) == lookup(es, k2),
    decreases es.len(),
{
    let es2 = es.push((k, v));
    assert(es2.len() == es.len() + 1);
    if es.len() == 0 {
        assert(es2[0] == (k, v));
        assert(es2.drop_first() =~= Seq::<(Seq<char>, V)>::empty());
        assert(es =~= Seq::<(Seq<char>, V)>::empty());
        assert(lookup(es2, k) == Some(v));
        assert forall|k2: Seq<char>| k2 != k implies lookup(es2, k2) == lookup(es, k2) by {
            assert(lookup(es2, k2) == lookup(es2.drop_first(), k2));
            assert(lookup(es2.drop_first(), k2) is None);
            assert(lookup(es, k2) is None);
        }
    } else {
        assert(es2[0] == es[0]);
        assert(es2.drop_first() =~= es.drop_first().push((k, v)));
        assert(forall|j: int|
            0 <= j < es.drop_first().len() ==> es.drop_first()[j] == es[j + 1]);
        lemma_lookup_push(es.drop_first(), k, v);
        assert(es[0].0 != k);
        assert(lookup(es2, k) == lookup(es2.drop_first(), k));
        assert forall|k2: Seq<char>| k2 != k implies lookup(es2, k2) == lookup(es, k2) by {
            if es[0].0 == k2 {
                assert(lookup(es2, k2) == Some(es2[0].1));
                assert(lookup(es, k2) == Some(es[0].1));
            } else {
                assert(lookup(es2, k2) == lookup(es2.drop_first(), k2));
                assert(lookup(es, k2) == lookup(es.drop_first(), k2));
            }
        }
    }
}

} // verus!
