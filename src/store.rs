use vstd::prelude::*;
use vstd::string::*;
use crate::content::copy_bytes;
use crate::error::ApiError;
use crate::text::str_eq;

verus! {

/// The SHA-256 digest of some bytes.
pub uninterp spec fn sha256_of(content: Seq<u8>) -> Seq<u8>;

/// The URL-safe base64 encoding of some bytes, with padding.
pub uninterp spec fn base64_url_of(bytes: Seq<u8>) -> Seq<char>;

/// Relies on sha2's `Sha256::digest`: the SHA-256 digest of the bytes,
/// which is 32 bytes long.
#[verifier::external_body]
fn sha256(content: &[u8]) -> (r: Vec<u8>)
    ensures
        r@ == sha256_of(content@),
        r@.len() == 32,
{
    <sha2::Sha256 as sha2::Digest>::digest(content).to_vec()
}

/// Relies on base64's `encode_config` with the `URL_SAFE` configuration.
#[verifier::external_body]
fn base64_url(bytes: &[u8]) -> (r: String)
    ensures
        r@ == base64_url_of(bytes@),
{
    base64::encode_config(bytes, base64::URL_SAFE)
}

/// The integrity string of some content: `sha256-` followed by the
/// URL-safe base64 of its SHA-256 digest.
pub open spec fn integrity_of(content: Seq<u8>) -> Seq<char> {
    "sha256-"@ + base64_url_of(sha256_of(content))
}

/// Computes the integrity string of some content.
pub fn compute_integrity(content: &[u8]) -> (r: String)
    ensures
        r@ == integrity_of(content@),
{
    let digest = sha256(content);
    let mut r = String::from_str("sha256-");
    r.append(base64_url(digest.as_slice()).as_str());
    r
}

/// The directory an archive is unpacked into:
/// `<workspace>/<prefix>-<integrity>`.
pub open spec fn unpack_path(workspace: Seq<char>, prefix: Seq<char>, integrity: Seq<char>) -> Seq<
    char,
> {
    workspace + "/"@ + prefix + "-"@ + integrity
}

/// What storing content does to the blobs: nothing when its integrity is
/// already a key, else it adds the content under its integrity.
pub open spec fn put_blob(blobs: Map<Seq<char>, Seq<u8>>, content: Seq<u8>) -> Map<
    Seq<char>,
    Seq<u8>,
> {
    if blobs.contains_key(integrity_of(content)) {
        blobs
    } else {
        blobs.insert(integrity_of(content), content)
    }
}

/// A stored blob.
#[derive(Debug)]
pub struct Blob {
    pub integrity: String,
    pub content: Vec<u8>,
}

/// What a call to unpack asks of its caller: the directory, and the bytes
/// of the archive to extract there when it is not yet extracted.
#[derive(Debug)]
pub struct UnpackPlan {
    pub path: String,
    pub extract: Option<Vec<u8>>,
}

/// Content-addressed blobs, and the workspace directories that archives
/// among them have been unpacked into.
#[derive(Debug)]
pub struct ArtifactStore {
    workspace: String,
    blobs: Vec<Blob>,
    unpacked: Vec<String>,
}

/// The map from integrity to content that a list of blobs holds.
pub open spec fn blob_map(s: Seq<Blob>) -> Map<Seq<char>, Seq<u8>>
    decreases s.len(),
{
    if s.len() == 0 {
        Map::empty()
    } else {
        blob_map(s.drop_last()).insert(s.last().integrity@, s.last().content@)
    }
}

/// No two blobs share an integrity.
pub open spec fn distinct_blobs(s: Seq<Blob>) -> bool {
    forall|i: int, j: int|
        0 <= i < j < s.len() ==> #[trigger] s[i].integrity@ != #[trigger] s[j].integrity@
}

proof fn lemma_blob_map_keys(s: Seq<Blob>, k: Seq<char>)
    ensures
        blob_map(s).contains_key(k) <==> exists|i: int| 0 <= i < s.len() && s[i].integrity@ == k,
    decreases s.len(),
{
    if s.len() > 0 {
        lemma_blob_map_keys(s.drop_last(), k);
        if blob_map(s.drop_last()).contains_key(k) {
            let i = choose|i: int| 0 <= i < s.len() - 1 && s.drop_last()[i].integrity@ == k;
            assert(s[i].integrity@ == k);
        }
        if exists|i: int| 0 <= i < s.len() && s[i].integrity@ == k {
            let i = choose|i: int| 0 <= i < s.len() && s[i].integrity@ == k;
            if i < s.len() - 1 {
                assert(s.drop_last()[i].integrity@ == k);
            }
        }
    }
}

proof fn lemma_blob_map_value(s: Seq<Blob>, i: int)
    requires
        distinct_blobs(s),
        0 <= i < s.len(),
    ensures
        blob_map(s).contains_key(s[i].integrity@),
        blob_map(s)[s[i].integrity@] == s[i].content@,
    decreases s.len(),
{
    if i < s.len() - 1 {
        lemma_blob_map_value(s.drop_last(), i);
        assert(s.drop_last()[i] == s[i]);
    }
}

impl ArtifactStore {
    /// The workspace directory that archives are unpacked under.
    pub closed spec fn workspace(&self) -> Seq<char> {
        self.workspace@
    }

    /// The stored blobs, by integrity.
    pub closed spec fn blobs(&self) -> Map<Seq<char>, Seq<u8>> {
        blob_map(self.blobs@)
    }

    /// The number of stored blobs.
    pub closed spec fn blob_count(&self) -> nat {
        self.blobs@.len()
    }

    /// The directories that archives have been unpacked into.
    pub closed spec fn unpacked(&self) -> Set<Seq<char>> {
        self.unpacked@.map_values(|p: String| p@).to_set()
    }

    /// Blobs are keyed by their integrity, once each.
    pub closed spec fn wf(&self) -> bool {
        &&& distinct_blobs(self.blobs@)
        &&& forall|i: int|
            0 <= i < self.blobs@.len() ==> (#[trigger] self.blobs@[i]).integrity@ == integrity_of(
                self.blobs@[i].content@,
            )
    }

    /// An empty store whose archives unpack under `workspace`.
    pub fn new(workspace: String) -> (r: ArtifactStore)
        ensures
            r.wf(),
            r.workspace() == workspace@,
            r.blobs() == Map::<Seq<char>, Seq<u8>>::empty(),
            r.blob_count() == 0,
            r.unpacked() == Set::<Seq<char>>::empty(),
    {
        let r = ArtifactStore { workspace, blobs: Vec::new(), unpacked: Vec::new() };
        assert(r.unpacked@.map_values(|p: String| p@) =~= Seq::<Seq<char>>::empty());
        r
    }

    /// The workspace directory that archives are unpacked under.
    pub fn workspace_path(&self) -> (r: &str)
        ensures
            r@ == self.workspace(),
    {
        self.workspace.as_str()
    }

    /// The number of stored blobs.
    pub fn len(&self) -> (r: usize)
        ensures
            r == self.blob_count(),
    {
        self.blobs.len()
    }

    fn find_blob(&self, integrity: &str) -> (r: Option<usize>)
        requires
            self.wf(),
        ensures
            match r {
                Some(i) => i < self.blobs@.len() && self.blobs@[i as int].integrity@ == integrity@,
                None => !self.blobs().contains_key(integrity@),
            },
    {
        let mut i: usize = 0;
        while i < self.blobs.len()
            invariant
                i <= self.blobs@.len(),
                forall|j: int| 0 <= j < i ==> (#[trigger] self.blobs@[j]).integrity@ != integrity@,
            decreases self.blobs.len() - i,
        {
            if str_eq(self.blobs[i].integrity.as_str(), integrity) {
                return Some(i);
            }
            i = i + 1;
        }
        proof {
            lemma_blob_map_keys(self.blobs@, integrity@);
        }
        None
    }

    /// The content stored under an integrity, if any.
    pub fn content_of(&self, integrity: &str) -> (r: Option<&Vec<u8>>)
        requires
            self.wf(),
        ensures
            match r {
                Some(c) => self.blobs().contains_key(integrity@) && self.blobs()[integrity@]
                    == c@,
                None => !self.blobs().contains_key(integrity@),
            },
    {
        match self.find_blob(integrity) {
            Some(i) => {
                proof {
                    lemma_blob_map_value(self.blobs@, i as int);
                }
                Some(&self.blobs[i].content)
            },
            None => None,
        }
    }

    /// Stores content under its integrity, unless that integrity is already
    /// stored, and returns the integrity.
    pub fn put(&mut self, content: &[u8]) -> (r: String)
        requires
            old(self).wf(),
        ensures
            put_post(*old(self), content@, r@, *final(self)),
    {
        let integrity = compute_integrity(content);
        match self.find_blob(integrity.as_str()) {
            Some(i) => {
                proof {
                    lemma_blob_map_keys(self.blobs@, integrity@);
                }
                integrity
            },
            None => {
                let ghost before = self.blobs@;
                let mut bytes: Vec<u8> = Vec::new();
                let mut i: usize = 0;
                while i < content.len()
                    invariant
                        i <= content@.len(),
                        bytes@ == content@.take(i as int),
                    decreases content.len() - i,
                {
                    bytes.push(content[i]);
                    i = i + 1;
                    assert(bytes@ =~= content@.take(i as int));
                }
                assert(content@.take(i as int) =~= content@);
                let copy = String::from_str(integrity.as_str());
                self.blobs.push(Blob { integrity: copy, content: bytes });
                proof {
                    assert(self.blobs@.drop_last() =~= before);
                    assert forall|a: int, b: int|
                        0 <= a < b < self.blobs@.len() implies #[trigger] self.blobs@[a].integrity@
                        != #[trigger] self.blobs@[b].integrity@ by {
                        if b == self.blobs@.len() - 1 {
                            lemma_blob_map_keys(before, integrity@);
                            assert(before[a].integrity@ != integrity@);
                        }
                    }
                }
                integrity
            },
        }
    }

    fn is_unpacked(&self, path: &str) -> (r: bool)
        ensures
            r == self.unpacked().contains(path@),
    {
        let ghost paths = self.unpacked@.map_values(|p: String| p@);
        let mut i: usize = 0;
        while i < self.unpacked.len()
            invariant
                i <= self.unpacked@.len(),
                paths == self.unpacked@.map_values(|p: String| p@),
                forall|j: int| 0 <= j < i ==> (#[trigger] self.unpacked@[j])@ != path@,
            decreases self.unpacked.len() - i,
        {
            if str_eq(self.unpacked[i].as_str(), path) {
                assert(paths[i as int] == path@);
                return true;
            }
            i = i + 1;
        }
        assert(!paths.contains(path@));
        false
    }

    /// Resolves the directory of an archive. When the directory has not been
    /// unpacked yet, hands back the archive's bytes for extraction there and
    /// records the directory as unpacked; when it has, hands back no bytes.
    /// Fails with `NotFound` when the directory is new and the integrity unknown.
    pub fn unpack(&mut self, integrity: &str, prefix: &str) -> (r: Result<UnpackPlan, ApiError>)
        requires
            old(self).wf(),
        ensures
            unpack_post(*old(self), integrity@, prefix@, r, *final(self)),
    {
        let mut path = String::from_str(self.workspace.as_str());
        path.append("/");
        path.append(prefix);
        path.append("-");
        path.append(integrity);
        if self.is_unpacked(path.as_str()) {
            return Ok(UnpackPlan { path, extract: None });
        }
        let content = match self.find_blob(integrity) {
            Some(i) => {
                proof {
                    lemma_blob_map_value(self.blobs@, i as int);
                }
                copy_bytes(&self.blobs[i].content)
            },
            None => return Err(ApiError::NotFound),
        };
        let ghost before = self.unpacked@;
        self.unpacked.push(String::from_str(path.as_str()));
        proof {
            assert(self.unpacked@.map_values(|p: String| p@) =~= before.map_values(
                |p: String| p@,
            ).push(path@));
            before.map_values(|p: String| p@).lemma_push_to_set_commute(path@);
        }
        Ok(UnpackPlan { path, extract: Some(content) })
    }
}

/// What storing does: `r` and `new` are what storing `content` gives from
/// `old`.
pub open spec fn put_post(old: ArtifactStore, content: Seq<u8>, r: Seq<char>, new: ArtifactStore) -> bool {
    &&& new.wf()
    &&& r == integrity_of(content)
    &&& new.blobs() == put_blob(old.blobs(), content)
    &&& new.blob_count() == old.blob_count() + if old.blobs().contains_key(r) {
        0int
    } else {
        1int
    }
    &&& new.workspace() == old.workspace()
    &&& new.unpacked() == old.unpacked()
}

/// What unpacking does: `r` and `new` are what unpacking `integrity` with
/// `prefix` may give from `old`.
pub open spec fn unpack_post(
    old: ArtifactStore,
    integrity: Seq<char>,
    prefix: Seq<char>,
    r: Result<UnpackPlan, ApiError>,
    new: ArtifactStore,
) -> bool {
    let path = unpack_path(old.workspace(), prefix, integrity);
    &&& new.wf()
    &&& new.workspace() == old.workspace()
    &&& new.blobs() == old.blobs()
    &&& new.blob_count() == old.blob_count()
    &&& if old.unpacked().contains(path) {
        &&& r is Ok
        &&& r->Ok_0.path@ == path
        &&& r->Ok_0.extract is None
        &&& new.unpacked() == old.unpacked()
    } else if !old.blobs().contains_key(integrity) {
        &&& r == Err::<UnpackPlan, ApiError>(ApiError::NotFound)
        &&& new.unpacked() == old.unpacked()
    } else {
        &&& r is Ok
        &&& r->Ok_0.path@ == path
        &&& r->Ok_0.extract is Some
        &&& r->Ok_0.extract->0@ == old.blobs()[integrity]
        &&& new.unpacked() == old.unpacked().insert(path)
    }
}

/// Storing the same content twice stores it once: the second store changes
/// nothing.
pub proof fn lemma_put_idempotent(blobs: Map<Seq<char>, Seq<u8>>, content: Seq<u8>)
    ensures
        put_blob(put_blob(blobs, content), content) == put_blob(blobs, content),
        put_blob(blobs, content).contains_key(integrity_of(content)),
{
}

/// Storing the same content twice in a row stores one blob for it: the
/// second store adds nothing, and both return the same integrity.
pub proof fn lemma_put_twice(
    s0: ArtifactStore,
    s1: ArtifactStore,
    s2: ArtifactStore,
    content: Seq<u8>,
    r1: Seq<char>,
    r2: Seq<char>,
)
    requires
        put_post(s0, content, r1, s1),
        put_post(s1, content, r2, s2),
    ensures
        r1 == r2,
        s2.blobs() == s1.blobs(),
        s2.blob_count() == s1.blob_count(),
        s1.blob_count() <= s0.blob_count() + 1,
        s2.blobs().contains_key(r2),
        s2.blobs()[r2] == if s0.blobs().contains_key(r1) {
            s0.blobs()[r1]
        } else {
            content
        },
{
}

/// Unpacking the same archive twice in a row names the same directory both
/// times, and hands out the bytes to extract at most once.
pub proof fn lemma_unpack_twice(
    s0: ArtifactStore,
    s1: ArtifactStore,
    s2: ArtifactStore,
    integrity: Seq<char>,
    prefix: Seq<char>,
    r1: Result<UnpackPlan, ApiError>,
    r2: Result<UnpackPlan, ApiError>,
)
    requires
        unpack_post(s0, integrity, prefix, r1, s1),
        unpack_post(s1, integrity, prefix, r2, s2),
    ensures
        r1 is Ok ==> r2 is Ok && r2->Ok_0.path@ == r1->Ok_0.path@ && r2->Ok_0.extract is None,
        r1 is Err ==> r2 == r1,
        !(r1 is Ok && r1->Ok_0.extract is Some && r2 is Ok && r2->Ok_0.extract is Some),
{
}

} // verus!
