//! Config-directory resolution and the one-time migration from the legacy
//! executable-adjacent directory: which directory to use, and which known
//! artifacts to copy. Migration never overwrites a destination file and is
//! idempotent.

use vstd::prelude::*;
use crate::errors::SupervisorError;

verus! {

/// Which directory the resolver settled on.
#[derive(Clone, Copy, Debug, PartialEq, Eq, Structural)]
pub enum ConfigDirChoice {
    /// The stable, user-profile-scoped directory.
    Stable,
    /// The directory adjacent to the executable, used only when the stable
    /// one cannot be created.
    Fallback,
}

/// Settle on a config directory: the stable user-scoped directory when it is
/// writable, else the executable-adjacent fallback; when neither is writable
/// the launch attempt fails with `ResolutionFailed` — the one hard failure of
/// the resolver.
pub fn choose_config_dir(stable_writable: bool, fallback_writable: bool) -> (r: Result<
    ConfigDirChoice,
    SupervisorError,
>)
    ensures
        stable_writable ==> r == Ok::<_, SupervisorError>(ConfigDirChoice::Stable),
        !stable_writable && fallback_writable ==> r == Ok::<_, SupervisorError>(
            ConfigDirChoice::Fallback,
        ),
        !stable_writable && !fallback_writable ==> r == Err::<ConfigDirChoice, _>(
            SupervisorError::ResolutionFailed,
        ),
{
    if stable_writable {
        Ok(ConfigDirChoice::Stable)
    } else if fallback_writable {
        Ok(ConfigDirChoice::Fallback)
    } else {
        Err(SupervisorError::ResolutionFailed)
    }
}

/// The known artifacts migrated from the legacy directory: the config file,
/// the autosave file, and the scripts subtree.
pub fn migration_items() -> (r: Vec<&'static str>)
    ensures
        r@.len() == 3,
        r@[0]@ == "config.jsonc"@,
        r@[1]@ == "autosave.xml"@,
        r@[2]@ == "scripts"@,
{
    let mut r: Vec<&'static str> = Vec::new();
    r.push("config.jsonc");
    r.push("autosave.xml");
    r.push("scripts");
    r
}

/// Which items one migration run copies: only when the stable directory was
/// just created and the legacy directory exists, and then only the items
/// present at the source and absent at the destination.
pub open spec fn spec_copies(
    stable_newly_created: bool,
    legacy_dir_exists: bool,
    legacy_present: Seq<bool>,
    dest_present: Seq<bool>,
    i: int,
) -> bool {
    stable_newly_created && legacy_dir_exists && legacy_present[i] && !dest_present[i]
}

/// Plan one migration run over the known items. `legacy_present` and
/// `dest_present` say, item by item, whether the item exists at the legacy
/// source and at the destination; the result says which items to copy.
/// No item with an existing destination is ever copied.
pub fn plan_migration(
    stable_newly_created: bool,
    legacy_dir_exists: bool,
    legacy_present: &Vec<bool>,
    dest_present: &Vec<bool>,
) -> (copy: Vec<bool>)
    requires
        legacy_present@.len() == dest_present@.len(),
    ensures
        copy@.len() == legacy_present@.len(),
        forall|i: int|
            0 <= i < copy@.len() ==> copy@[i] == spec_copies(
                stable_newly_created,
                legacy_dir_exists,
                legacy_present@,
                dest_present@,
                i,
            ),
{
    let mut copy: Vec<bool> = Vec::new();
    let mut i: usize = 0;
    while i < legacy_present.len()
        invariant
            0 <= i <= legacy_present@.len(),
            legacy_present@.len() == dest_present@.len(),
            copy@.len() == i,
            forall|j: int|
                0 <= j < i ==> copy@[j] == spec_copies(
                    stable_newly_created,
                    legacy_dir_exists,
                    legacy_present@,
                    dest_present@,
                    j,
                ),
        decreases legacy_present@.len() - i,
    {
        copy.push(
            stable_newly_created && legacy_dir_exists && legacy_present[i] && !dest_present[i],
        );
        i += 1;
    }
    copy
}

/// The destination after the planned copies ran: an item exists there when it
/// already did or when it was copied.
pub fn apply_migration(dest_present: &Vec<bool>, copy: &Vec<bool>) -> (after: Vec<bool>)
    requires
        copy@.len() == dest_present@.len(),
    ensures
        after@.len() == dest_present@.len(),
        forall|i: int| 0 <= i < after@.len() ==> after@[i] == (dest_present@[i] || copy@[i]),
{
    let mut after: Vec<bool> = Vec::new();
    let mut i: usize = 0;
    while i < dest_present.len()
        invariant
            0 <= i <= dest_present@.len(),
            copy@.len() == dest_present@.len(),
            after@.len() == i,
            forall|j: int| 0 <= j < i ==> after@[j] == (dest_present@[j] || copy@[j]),
        decreases dest_present@.len() - i,
    {
        after.push(dest_present[i] || copy[i]);
        i += 1;
    }
    after
}

/// Migration never touches an existing destination file: whatever the other
/// inputs, an item present at the destination is not copied, and it is still
/// present, unmodified, afterwards.
pub proof fn lemma_migration_preserves_existing(
    stable_newly_created: bool,
    legacy_dir_exists: bool,
    legacy_present: Seq<bool>,
    dest_present: Seq<bool>,
    i: int,
)
    requires
        0 <= i < dest_present.len(),
        dest_present[i],
    ensures
        !spec_copies(stable_newly_created, legacy_dir_exists, legacy_present, dest_present, i),
{
}

/// Migration is idempotent: once a migration run has executed — the stable
/// directory was newly created and the legacy directory existed — every item
/// present at the source exists at the destination afterwards, so a second
/// run over the same legacy items copies nothing at all, whether or not it
/// again considers the stable directory newly created.
pub proof fn lemma_migration_idempotent(
    stable_newly_created: bool,
    legacy_dir_exists: bool,
    legacy_present: Seq<bool>,
    dest_present: Seq<bool>,
    second_newly_created: bool,
    i: int,
)
    requires
        0 <= i < legacy_present.len(),
        legacy_present.len() == dest_present.len(),
        stable_newly_created,
        legacy_dir_exists,
    ensures
        !spec_copies(
            second_newly_created,
            legacy_dir_exists,
            legacy_present,
            Seq::new(
                dest_present.len(),
                |j: int| dest_present[j] || spec_copies(
                    stable_newly_created,
                    legacy_dir_exists,
                    legacy_present,
                    dest_present,
                    j,
                ),
            ),
            i,
        ),
{
}

} // verus!
