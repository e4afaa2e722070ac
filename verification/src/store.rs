//! The persisted state and the operations on it.
//!
//! An `AppData` value models the app-data root: the one plan document and
//! the contents of the media directory, a file of bytes per name.  The
//! surrounding application maps these to the disk; every decision — what a
//! save writes, what a load returns, when an operation fails — is made and
//! proved here.  `run` applies one command of the boundary interface.

use vstd::prelude::*;

use crate::StoreError;
use crate::codec::parse_plan;
use crate::codec::serialize_plan;
use crate::codec::spec_load;
use crate::codec::spec_save;
use crate::schema::MediaDimensions;
use crate::schema::WeddingPlan;
use crate::schema::WeddingPlanV;
use crate::schema::default_plan;
use crate::schema::plan_wf;

verus! {

/// The persisted state of one installation.
pub struct AppData {
    /// The document text, if the document file exists.
    pub plan_doc: Option<String>,
    /// The media directory: file name and file bytes, each name once.
    pub media: Vec<(String, Vec<u8>)>,
}

/// The mathematical content of the persisted state.
#[verifier::ext_equal]
pub struct AppDataV {
    pub doc: Option<Seq<char>>,
    pub media: Map<Seq<char>, Seq<u8>>,
}

/// The media directory as a map from file name to bytes.
pub open spec fn media_map(s: Seq<(String, Vec<u8>)>) -> Map<Seq<char>, Seq<u8>>
    decreases s.len(),
{
    if s.len() == 0 {
        Map::empty()
    } else {
        media_map(s.drop_last()).insert(s.last().0@, s.last().1@)
    }
}

impl View for AppData {
    type V = AppDataV;

    open spec fn view(&self) -> AppDataV {
        AppDataV {
            doc: match self.plan_doc {
                Some(s) => Some(s@),
                None => None,
            },
            media: media_map(self.media@),
        }
    }
}

impl AppData {
    /// Each media file name occurs once.
    pub open spec fn wf(&self) -> bool {
        forall|i: int, j: int|
            0 <= i < j < self.media@.len() ==> (#[trigger] self.media@[i]).0@ != (
            #[trigger] self.media@[j]).0@
    }

    /// A fresh app-data root: no document, no media files.
    pub fn new() -> (r: AppData)
        ensures
            r.wf(),
            r@.doc is None,
            r@.media == Map::<Seq<char>, Seq<u8>>::empty(),
    {
        AppData { plan_doc: None, media: Vec::new() }
    }
}

/// A name found at an index is in the map, with that entry's bytes.
proof fn lemma_media_map_found(s: Seq<(String, Vec<u8>)>, i: int, name: Seq<char>)
    requires
        forall|x: int, y: int|
            0 <= x < y < s.len() ==> (#[trigger] s[x]).0@ != (#[trigger] s[y]).0@,
        0 <= i < s.len(),
        s[i].0@ == name,
    ensures
        media_map(s).contains_key(name),
        media_map(s)[name] == s[i].1@,
    decreases s.len(),
{
    if i == s.len() - 1 {
        assert(s.last() == s[i]);
    } else {
        assert(s.last().0@ != name);
        assert(s.drop_last()[i] == s[i]);
        lemma_media_map_found(s.drop_last(), i, name);
    }
}

/// A name at no index is not in the map.
proof fn lemma_media_map_absent(s: Seq<(String, Vec<u8>)>, name: Seq<char>)
    requires
        forall|x: int| 0 <= x < s.len() ==> (#[trigger] s[x]).0@ != name,
    ensures
        !media_map(s).contains_key(name),
    decreases s.len(),
{
    if s.len() > 0 {
        assert(s.last() == s[s.len() - 1]);
        assert forall|x: int| 0 <= x < s.drop_last().len() implies (#[trigger] s.drop_last()[x]).0@
            != name by {
            assert(s.drop_last()[x] == s[x]);
        }
        lemma_media_map_absent(s.drop_last(), name);
    }
}

/// Appending an entry inserts it into the map.
proof fn lemma_media_map_push(s: Seq<(String, Vec<u8>)>, p: (String, Vec<u8>))
    ensures
        media_map(s.push(p)) == media_map(s).insert(p.0@, p.1@),
{
    assert(s.push(p).drop_last() =~= s);
    assert(s.push(p).last() == p);
}

/// Removing the entry of a name removes the name from the map.
proof fn lemma_media_map_remove(s: Seq<(String, Vec<u8>)>, i: int, name: Seq<char>)
    requires
        forall|x: int, y: int|
            0 <= x < y < s.len() ==> (#[trigger] s[x]).0@ != (#[trigger] s[y]).0@,
        0 <= i < s.len(),
        s[i].0@ == name,
    ensures
        media_map(s.remove(i)) == media_map(s).remove(name),
    decreases s.len(),
{
    if i == s.len() - 1 {
        assert(s.remove(i) =~= s.drop_last());
        assert forall|x: int| 0 <= x < s.drop_last().len() implies (#[trigger] s.drop_last()[x]).0@
            != name by {
            assert(s.drop_last()[x] == s[x]);
            assert(s[x].0@ != s[i].0@);
        }
        lemma_media_map_absent(s.drop_last(), name);
        assert(media_map(s.drop_last()).insert(name, s.last().1@).remove(name) =~= media_map(
            s.drop_last(),
        ));
        assert(s.last() == s[i]);
    } else {
        let t = s.drop_last();
        assert(t[i] == s[i]);
        assert forall|x: int, y: int|
            0 <= x < y < t.len() implies (#[trigger] t[x]).0@ != (#[trigger] t[y]).0@ by {
            assert(t[x] == s[x]);
            assert(t[y] == s[y]);
        }
        lemma_media_map_remove(t, i, name);
        assert(s.remove(i).drop_last() =~= t.remove(i));
        assert(s.remove(i).last() == s.last());
        assert(s.last().0@ != name) by {
            assert(s[i].0@ != s[s.len() - 1].0@);
        }
        assert(media_map(s.remove(i)) == media_map(t.remove(i)).insert(s.last().0@, s.last().1@));
        assert(media_map(t).remove(name).insert(s.last().0@, s.last().1@) =~= media_map(t).insert(
            s.last().0@,
            s.last().1@,
        ).remove(name));
    }
}

/// The bytes, duplicated.
fn copy_bytes(v: &Vec<u8>) -> (r: Vec<u8>)
    ensures
        r@ == v@,
{
    vstd::slice::slice_to_vec(v.as_slice())
}

impl AppData {
    /// The index of a media file name, if it is stored.
    fn find_media(&self, name: &str) -> (r: Option<usize>)
        ensures
            match r {
                Some(i) => i < self.media@.len() && self.media@[i as int].0@ == name@,
                None => forall|x: int|
                    0 <= x < self.media@.len() ==> (#[trigger] self.media@[x]).0@ != name@,
            },
    {
        let n = self.media.len();
        let mut k: usize = 0;
        while k < n
            invariant
                n == self.media@.len(),
                k <= n,
                forall|x: int| 0 <= x < k ==> (#[trigger] self.media@[x]).0@ != name@,
            decreases n - k,
        {
            if crate::codec::str_eq(self.media[k].0.as_str(), name) {
                return Some(k);
            }
            k = k + 1;
        }
        None
    }

    /// Store the document: serialize the plan and overwrite the document
    /// file.  The media files are untouched.  Only a plan whose numbers
    /// are malformed is refused; I/O failures are the surrounding
    /// application's to report.
    pub fn save_wedding_plan(&mut self, plan: &WeddingPlan) -> (r: Result<(), StoreError>)
        requires
            old(self).wf(),
        ensures
            final(self).wf(),
            final(self)@.media == old(self)@.media,
            plan.wf() ==> r is Ok && final(self)@.doc == Some(spec_save(plan@)),
            !plan.wf() ==> r == Err::<(), StoreError>(StoreError::InvalidPlan) && final(self)@
                == old(self)@,
    {
        if !plan.is_wf() {
            return Err(StoreError::InvalidPlan);
        }
        let text = serialize_plan(plan);
        self.plan_doc = Some(text);
        Ok(())
    }

    /// Load the document.  A missing document file is the all-defaults
    /// plan, never an error; text that does not parse against the schema
    /// is a format failure.
    pub fn load_wedding_plan(&self) -> (r: Result<WeddingPlan, StoreError>)
        ensures
            self@.doc is None ==> r is Ok && r->Ok_0@ == default_plan(),
            self@.doc is Some && spec_load(self@.doc->0) is Some ==> r is Ok && r->Ok_0@
                == spec_load(self@.doc->0)->0,
            self@.doc is Some && spec_load(self@.doc->0) is None ==> r is Err && r->Err_0
                == StoreError::Format,
    {
        match &self.plan_doc {
            None => Ok(WeddingPlan::default()),
            Some(text) => parse_plan(text.as_str()),
        }
    }

    /// Store bytes under a name in the media directory, replacing silently
    /// what was there; the returned handle is the path relative to the
    /// app-data root.
    pub fn save_media_file(&mut self, file_name: String, file_data: Vec<u8>) -> (r: Result<
        String,
        StoreError,
    >)
        requires
            old(self).wf(),
        ensures
            final(self).wf(),
            r is Ok,
            r->Ok_0@ == "media/"@ + file_name@,
            final(self)@.media == old(self)@.media.insert(file_name@, file_data@),
            final(self)@.doc == old(self)@.doc,
    {
        let ghost oldmap = self@.media;
        let _ = self.delete_media_file(file_name.as_str());
        let ghost mid = self.media@;
        proof {
            assert(media_map(mid) == oldmap.remove(file_name@));
            assert forall|x: int| 0 <= x < mid.len() implies (#[trigger] mid[x]).0@ != file_name@ by {
                if mid[x].0@ == file_name@ {
                    lemma_media_map_found(mid, x, file_name@);
                }
            }
        }
        let ghost gname = file_name@;
        let ghost gdata = file_data@;
        let mut handle = String::from_str("media/");
        handle.append(file_name.as_str());
        self.media.push((file_name, file_data));
        proof {
            lemma_media_map_push(mid, self.media@.last());
            assert(self.media@.last().0@ == gname);
            assert(self.media@.last().1@ == gdata);
            assert(oldmap.remove(gname).insert(gname, gdata) =~= oldmap.insert(gname, gdata));
            assert forall|x: int, y: int|
                0 <= x < y < self.media@.len() implies (#[trigger] self.media@[x]).0@ != (
            #[trigger] self.media@[y]).0@ by {
                if y == self.media@.len() - 1 {
                    assert(self.media@[x] == mid[x]);
                } else {
                    assert(self.media@[x] == mid[x]);
                    assert(self.media@[y] == mid[y]);
                }
            }
        }
        Ok(handle)
    }

    /// The bytes stored under a name; a missing file is a not-found
    /// failure.
    pub fn get_media_file_data(&self, filename: &str) -> (r: Result<Vec<u8>, StoreError>)
        requires
            self.wf(),
        ensures
            match r {
                Ok(d) => self@.media.contains_key(filename@) && d@ == self@.media[filename@],
                Err(e) => !self@.media.contains_key(filename@) && e == StoreError::NotFound,
            },
    {
        match self.find_media(filename) {
            Some(i) => {
                proof {
                    lemma_media_map_found(self.media@, i as int, filename@);
                }
                Ok(copy_bytes(&self.media[i].1))
            },
            None => {
                proof {
                    lemma_media_map_absent(self.media@, filename@);
                }
                Err(StoreError::NotFound)
            },
        }
    }

    /// Remove the file of a name; removing a name that was never stored
    /// succeeds and changes nothing.
    pub fn delete_media_file(&mut self, filename: &str) -> (r: Result<(), StoreError>)
        requires
            old(self).wf(),
        ensures
            final(self).wf(),
            r is Ok,
            final(self)@.media == old(self)@.media.remove(filename@),
            final(self)@.doc == old(self)@.doc,
    {
        let ghost oldmedia = self.media@;
        match self.find_media(filename) {
            Some(i) => {
                proof {
                    lemma_media_map_remove(self.media@, i as int, filename@);
                }
                self.media.remove(i);
                proof {
                    lemma_removed_wf(oldmedia, i as int);
                }
                Ok(())
            },
            None => {
                proof {
                    lemma_media_map_absent(self.media@, filename@);
                    assert(media_map(self.media@).remove(filename@) =~= media_map(self.media@));
                }
                Ok(())
            },
        }
    }

    /// The size in bytes of a stored file, and its pixel dimensions where
    /// determinable.  Dimension extraction is not implemented: the
    /// dimensions are always reported unknown, and that is not a failure.
    pub fn get_media_file_info(&self, filename: &str) -> (r: Result<
        (u64, Option<MediaDimensions>),
        StoreError,
    >)
        requires
            self.wf(),
        ensures
            match r {
                Ok((size, dims)) => self@.media.contains_key(filename@) && size
                    == self@.media[filename@].len() && dims is None,
                Err(e) => !self@.media.contains_key(filename@) && e == StoreError::NotFound,
            },
    {
        match self.find_media(filename) {
            Some(i) => {
                proof {
                    lemma_media_map_found(self.media@, i as int, filename@);
                }
                Ok((self.media[i].1.len() as u64, None))
            },
            None => {
                proof {
                    lemma_media_map_absent(self.media@, filename@);
                }
                Err(StoreError::NotFound)
            },
        }
    }
}

/// Removing an entry keeps the names unique.
proof fn lemma_removed_wf(s: Seq<(String, Vec<u8>)>, i: int)
    requires
        forall|x: int, y: int|
            0 <= x < y < s.len() ==> (#[trigger] s[x]).0@ != (#[trigger] s[y]).0@,
        0 <= i < s.len(),
    ensures
        forall|x: int, y: int|
            0 <= x < y < s.remove(i).len() ==> (#[trigger] s.remove(i)[x]).0@ != (
            #[trigger] s.remove(i)[y]).0@,
{
    assert forall|x: int, y: int|
        0 <= x < y < s.remove(i).len() implies (#[trigger] s.remove(i)[x]).0@ != (
    #[trigger] s.remove(i)[y]).0@ by {
        let x2: int = if x < i {
            x
        } else {
            x + 1
        };
        let y2: int = if y < i {
            y
        } else {
            y + 1
        };
        assert(s.remove(i)[x] == s[x2]);
        assert(s.remove(i)[y] == s[y2]);
    }
}

/// One request of the boundary interface.
pub enum Command {
    SavePlan(WeddingPlan),
    LoadPlan,
    SaveMediaFile(String, Vec<u8>),
    GetMediaFileData(String),
    DeleteMediaFile(String),
    GetMediaFileInfo(String),
}

/// The answer to one request.
pub enum Response {
    PlanSaved(Result<(), StoreError>),
    Plan(Result<WeddingPlan, StoreError>),
    MediaSaved(Result<String, StoreError>),
    MediaData(Result<Vec<u8>, StoreError>),
    MediaDeleted(Result<(), StoreError>),
    MediaInfo(Result<(u64, Option<MediaDimensions>), StoreError>),
}

/// Apply one command to the persisted state: the command interface the
/// surrounding application calls through.
pub fn run(state: &mut AppData, cmd: Command) -> (r: Response)
    requires
        old(state).wf(),
    ensures
        final(state).wf(),
        match cmd {
            Command::SavePlan(p) => final(state)@.media == old(state)@.media && (p.wf()
                ==> final(state)@.doc == Some(spec_save(p@))) && (!p.wf() ==> final(state)@ == old(
                state,
            )@) && match r {
                Response::PlanSaved(res) => if p.wf() {
                    res is Ok
                } else {
                    res == Err::<(), StoreError>(StoreError::InvalidPlan)
                },
                _ => false,
            },
            Command::LoadPlan => final(state)@ == old(state)@ && match r {
                Response::Plan(res) => match old(state)@.doc {
                    None => res is Ok && res->Ok_0@ == default_plan(),
                    Some(text) => match spec_load(text) {
                        Some(p) => res is Ok && res->Ok_0@ == p,
                        None => res == Err::<WeddingPlan, StoreError>(StoreError::Format),
                    },
                },
                _ => false,
            },
            Command::SaveMediaFile(name, data) => final(state)@.media == old(state)@.media.insert(
                name@,
                data@,
            ) && final(state)@.doc == old(state)@.doc && match r {
                Response::MediaSaved(res) => res is Ok && res->Ok_0@ == "media/"@ + name@,
                _ => false,
            },
            Command::GetMediaFileData(name) => final(state)@ == old(state)@ && match r {
                Response::MediaData(res) => match res {
                    Ok(d) => old(state)@.media.contains_key(name@) && d@ == old(
                        state,
                    )@.media[name@],
                    Err(e) => !old(state)@.media.contains_key(name@) && e == StoreError::NotFound,
                },
                _ => false,
            },
            Command::DeleteMediaFile(name) => final(state)@.media == old(state)@.media.remove(
                name@,
            ) && final(state)@.doc == old(state)@.doc && match r {
                Response::MediaDeleted(res) => res is Ok,
                _ => false,
            },
            Command::GetMediaFileInfo(name) => final(state)@ == old(state)@ && match r {
                Response::MediaInfo(res) => match res {
                    Ok((size, dims)) => old(state)@.media.contains_key(name@) && size == old(
                        state,
                    )@.media[name@].len() && dims is None,
                    Err(e) => !old(state)@.media.contains_key(name@) && e == StoreError::NotFound,
                },
                _ => false,
            },
        },
{
    match cmd {
        Command::SavePlan(p) => Response::PlanSaved(state.save_wedding_plan(&p)),
        Command::LoadPlan => Response::Plan(state.load_wedding_plan()),
        Command::SaveMediaFile(name, data) => Response::MediaSaved(
            state.save_media_file(name, data),
        ),
        Command::GetMediaFileData(name) => Response::MediaData(
            state.get_media_file_data(name.as_str()),
        ),
        Command::DeleteMediaFile(name) => Response::MediaDeleted(
            state.delete_media_file(name.as_str()),
        ),
        Command::GetMediaFileInfo(name) => Response::MediaInfo(
            state.get_media_file_info(name.as_str()),
        ),
    }
}

/// The document a save writes loads back as the plan that was saved: the
/// store's save and load are inverse on every well-formed plan.
pub proof fn lemma_save_then_load(d: AppDataV, p: WeddingPlanV)
    requires
        plan_wf(p),
        d.doc == Some(spec_save(p)),
    ensures
        spec_load(d.doc->0) == Some(p),
{
    crate::codec::lemma_save_load_round_trip(p);
}

/// Bytes stored under a name are exactly what a following fetch of that
/// name returns.
pub proof fn lemma_put_then_get(m: Map<Seq<char>, Seq<u8>>, name: Seq<char>, data: Seq<u8>)
    ensures
        m.insert(name, data).contains_key(name),
        m.insert(name, data)[name] == data,
{
}

/// Deleting a name that was never stored leaves the store as it was.
pub proof fn lemma_delete_missing(m: Map<Seq<char>, Seq<u8>>, name: Seq<char>)
    requires
        !m.contains_key(name),
    ensures
        m.remove(name) == m,
{
    assert(m.remove(name) =~= m);
}

} // verus!
