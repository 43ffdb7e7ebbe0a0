//! Names of containers in the vault directory: random, never derived from the
//! plain file's name, and never handed out twice in one run.
use vstd::prelude::*;
use vstd::string::StringExecFns;

use crate::random::os_random_bytes;

verus! {

/// Characters of a hyphenated UUID.
pub const ID_LEN: usize = 36;

/// Random bytes a version-4 UUID is built from.
pub const UUID_BYTES: usize = 16;

/// Relies on uuid's `Builder::from_random_bytes`, which sets the version and
/// variant bits of the 16 given bytes, and on its hyphenated `Display`:
/// 36 characters.
#[verifier::external_body]
fn uuid_v4_text(bytes: &Vec<u8>) -> (r: String)
    requires
        bytes@.len() == UUID_BYTES,
    ensures
        r@.len() == ID_LEN,
{
    let raw: [u8; 16] = bytes.as_slice().try_into().unwrap();
    uuid::Builder::from_random_bytes(raw).into_uuid().hyphenated().to_string()
}

/// The extension every container file carries.
pub open spec fn container_ext() -> Seq<char> {
    seq!['.', 'c', 'h', 'a']
}

/// Hands out container names and remembers them, so that no two files of a
/// run are written to the same container.
pub struct ContainerNamer {
    issued: Vec<String>,
}

impl ContainerNamer {
    /// The names handed out so far, in order.
    pub closed spec fn names(&self) -> Seq<Seq<char>> {
        self.issued@.map_values(|s: String| s@)
    }

    pub closed spec fn wf(&self) -> bool {
        forall|i: int, j: int|
            0 <= i < j < self.issued@.len() ==> self.issued@[i]@ != self.issued@[j]@
    }

    /// A namer that has handed out nothing.
    pub fn new() -> (r: ContainerNamer)
        ensures
            r.wf(),
            r.names() == Seq::<Seq<char>>::empty(),
    {
        let r = ContainerNamer { issued: Vec::new() };
        assert(r.names() =~= Seq::<Seq<char>>::empty());
        r
    }

    /// How many names were handed out.
    pub fn count(&self) -> (r: usize)
        ensures
            r == self.names().len(),
    {
        self.issued.len()
    }

    fn is_issued(&self, name: &String) -> (r: bool)
        ensures
            r == self.names().contains(name@),
    {
        let mut i: usize = 0;
        while i < self.issued.len()
            invariant
                i <= self.issued@.len(),
                forall|k: int| 0 <= k < i ==> self.issued@[k]@ != name@,
            decreases self.issued@.len() - i,
        {
            if self.issued[i] == *name {
                assert(self.names()[i as int] == name@);
                return true;
            }
            i = i + 1;
        }
        proof {
            if self.names().contains(name@) {
                let k = choose|k: int| 0 <= k < self.names().len() && self.names()[k] == name@;
                assert(self.issued@[k]@ == name@);
            }
        }
        false
    }

    /// Issues `<id>.cha` unless that name was handed out before; changes
    /// nothing when it was.
    pub fn issue(&mut self, id: String) -> (r: Option<String>)
        requires
            old(self).wf(),
            id@.len() == ID_LEN,
        ensures
            final(self).wf(),
            r is Some <==> !old(self).names().contains(id@ + container_ext()),
            r is Some ==> r->0@ == id@ + container_ext() && final(self).names() == old(
                self,
            ).names().push(r->0@),
            r is None ==> final(self).names() == old(self).names(),
    {
        let mut name = id;
        name.append(".cha");
        proof {
            reveal_strlit(".cha");
            assert(name@ =~= id@ + container_ext());
        }
        if self.is_issued(&name) {
            return None;
        }
        let ghost before = self.issued@;
        self.issued.push(name.clone());
        proof {
            assert forall|i: int, j: int|
                0 <= i < j < self.issued@.len() implies self.issued@[i]@ != self.issued@[j]@ by {
                if j == before.len() {
                    assert(old(self).names()[i] == before[i]@);
                }
            }
            assert(self.names() =~= old(self).names().push(name@));
        }
        Some(name)
    }

    /// A fresh container name, `<uuid>.cha` with a random UUID, that differs
    /// from every name handed out before. Gives up, changing nothing, when the
    /// random source fails or a few draws all collide.
    pub fn next_name(&mut self) -> (r: Option<String>)
        requires
            old(self).wf(),
        ensures
            final(self).wf(),
            r is None ==> final(self).names() == old(self).names(),
            r is Some ==> {
                let n = r->0@;
                &&& n.len() == ID_LEN + 4
                &&& n.subrange(ID_LEN as int, n.len() as int) == container_ext()
                &&& !old(self).names().contains(n)
                &&& final(self).names() == old(self).names().push(n)
            },
    {
        let mut attempt: usize = 0;
        while attempt < 4
            invariant
                self.wf(),
                self.names() == old(self).names(),
            decreases 4 - attempt,
        {
            let bytes = match os_random_bytes(UUID_BYTES) {
                Some(b) => b,
                None => {
                    return None;
                },
            };
            let id = uuid_v4_text(&bytes);
            let ghost idv = id@;
            let issued = self.issue(id);
            if issued.is_some() {
                proof {
                    let n = idv + container_ext();
                    assert(n.subrange(ID_LEN as int, n.len() as int) =~= container_ext());
                }
                return issued;
            }
            attempt = attempt + 1;
        }
        None
    }
}

/// No two names a namer hands out are the same.
pub proof fn lemma_names_distinct(namer: ContainerNamer)
    requires
        namer.wf(),
    ensures
        forall|i: int, j: int|
            0 <= i < j < namer.names().len() ==> namer.names()[i] != namer.names()[j],
{
}

} // verus!
