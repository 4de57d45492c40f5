use vstd::prelude::*;
use crate::oid::Oid;

verus! {

#[verifier::external_type_specification]
#[verifier::external_body]
pub struct ExRepository(gix::Repository);

#[verifier::external_type_specification]
#[verifier::external_body]
pub struct ExGixError(gix::Error);

/// Relies on gix::Repository::head_commit: resolves the current head to a
/// commit and yields its identifier. With the default SHA-1 object format an
/// identifier holds twenty bytes.
#[verifier::external_body]
pub fn head_commit_id(repo: &gix::Repository) -> (r: Result<Vec<u8>, gix::Error>)
    ensures
        r matches Ok(v) ==> v@.len() == 20,
{
    repo.head_commit().map(|c| c.id.as_slice().to_vec())
}

/// Relies on gix::Repository::find_commit and
/// gix::revision::walk::Platform::all with commit-time sorting, newest first:
/// yields the start commit and every ancestor reachable from it, each
/// identifier twenty bytes under the default SHA-1 object format.
#[verifier::external_body]
pub fn ancestors_newest_first(repo: &gix::Repository, head: &Oid) -> (r: Result<
    Vec<Vec<u8>>,
    gix::Error,
>)
    requires
        head.wf(),
    ensures
        r matches Ok(ids) ==> forall|i: int|
            0 <= i < ids@.len() ==> (#[trigger] ids@[i])@.len() == 20,
{
    let id = gix::ObjectId::from_bytes_or_panic(head.as_bytes());
    let walk = repo
        .find_commit(id)?
        .ancestors()
        .sorting(gix::revision::walk::Sorting::ByCommitTime(
            gix::traverse::commit::simple::CommitTimeOrder::NewestFirst,
        ))
        .all()?;
    walk.map(|res| res.map(|info| info.id.as_slice().to_vec())).collect()
}

/// Relies on gix::Repository::find_commit and gix::Commit::tree_id: the
/// identifier of the commit's root tree, twenty bytes under the default
/// SHA-1 object format.
#[verifier::external_body]
pub fn tree_id_of_commit(repo: &gix::Repository, commit: &Oid) -> (r: Result<Vec<u8>, gix::Error>)
    requires
        commit.wf(),
    ensures
        r matches Ok(v) ==> v@.len() == 20,
{
    let id = gix::ObjectId::from_bytes_or_panic(commit.as_bytes());
    let tid = repo.find_commit(id)?.tree_id().map_err(gix::Error::from)?;
    Ok(tid.detach().as_slice().to_vec())
}

/// Relies on gix::Repository::find_object, gix::Object::try_into_tree and
/// gix::object::tree::Tree::iter: yields each entry's file name, identifier
/// (twenty bytes under the default SHA-1 object format) and raw mode bits.
#[verifier::external_body]
pub fn tree_entries(repo: &gix::Repository, tree: &Oid) -> (r: Result<
    Vec<(Vec<u8>, Vec<u8>, u16)>,
    gix::Error,
>)
    requires
        tree.wf(),
    ensures
        r matches Ok(es) ==> forall|i: int|
            0 <= i < es@.len() ==> (#[trigger] es@[i]).1@.len() == 20,
{
    let id = gix::ObjectId::from_bytes_or_panic(tree.as_bytes());
    let t = repo.find_object(id)?.try_into_tree().map_err(gix::Error::from)?;
    t.iter()
        .map(|res| {
            res.map(|e| (e.inner.filename.to_vec(), e.inner.oid.as_bytes().to_vec(), e.inner.mode.value()))
                .map_err(gix::Error::from)
        })
        .collect()
}

/// Relies on gix::Repository::find_object: the raw bytes of one object.
#[verifier::external_body]
pub fn fetch_bytes(repo: &gix::Repository, id: &Oid) -> (r: Result<Vec<u8>, gix::Error>)
    requires
        id.wf(),
{
    let oid = gix::ObjectId::from_bytes_or_panic(id.as_bytes());
    let obj = repo.find_object(oid)?;
    Ok(obj.data.clone())
}

} // verus!
