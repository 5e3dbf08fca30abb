//! Trying a change before it is written: the core as it was can be put back.
//!
//! A workflow that has to write what a change makes of the project takes a
//! checkpoint, makes the change as if it had been written, writes it, and rolls back
//! where writing fails. The laws say that it then is where the failed change would
//! have left it.

use crate::app_core::batch::batch_imported;
use crate::app_core::batch::ImportOpView;
use crate::app_core::generated::generated_committed;
use crate::app_core::generated::GeneratedFile;
use crate::app_core::generated::PlacementView;
use crate::app_core::imports::library_file_imported;
use crate::app_core::imports::proxy_set;
use crate::app_core::imports::relinked_to;
use crate::app_core::persisted_edit;
use crate::app_core::AppCore;
use crate::app_core::CoreView;
use crate::app_core::ProjectRevision;
use crate::command::EditCommand;
use crate::command::Outside;
use crate::edit::EditError;
use crate::edit::Fault;
use crate::events::plainly;
use crate::events::CoreError;
use crate::events::CoreFault;
use crate::model::MediaManifestEntryView;
use vstd::prelude::*;

verus! {

/// The core with everything put back but the id generator, which never mints an id
/// again that it has minted.
pub open spec fn rolled_back(before: CoreView, now: CoreView) -> CoreView {
    CoreView { ids: now.ids, ..before }
}

impl AppCore {
    /// A copy of the core to go back to.
    pub fn checkpoint(&self) -> (r: AppCore)
        ensures
            r@ == self@,
    {
        AppCore {
            project_epoch: self.project_epoch,
            editor: self.editor.copy(),
            ids: self.ids.copy(),
            outbox: crate::events::copy_events(&self.outbox),
        }
    }

    /// Goes back to a checkpoint.
    pub fn roll_back(&mut self, before: AppCore)
        ensures
            final(self)@ == rolled_back(before@, old(self)@),
    {
        self.project_epoch = before.project_epoch;
        self.editor = before.editor;
        self.outbox = before.outbox;
    }

    /// Takes an edit back where the nested-sequence registry complains of what it came to.
    pub fn heed_registry(&mut self, before: AppCore, complaint: Option<String>) -> (r: Result<
        (),
        CoreError,
    >)
        ensures
            match complaint {
                None => r is Ok && final(self)@ == old(self)@,
                Some(m) => plainly(r) == Err::<(), CoreFault>(
                    CoreFault::Edit(Fault::Invalid(m@)),
                ) && final(self)@ == rolled_back(before@, old(self)@),
            },
    {
        match complaint {
            None => Ok(()),
            Some(reason) => {
                self.roll_back(before);
                Err(CoreError::Edit(EditError::Invalid(reason)))
            },
        }
    }
}

/// Rolling back an edit that could not be written is as good as having been told so.
pub proof fn law_rolled_back_edit_has_failed(
    c: CoreView,
    expected: ProjectRevision,
    command: EditCommand,
    o: Outside,
    path: Seq<char>,
    fault: CoreFault,
)
    ensures
        rolled_back(c, persisted_edit(c, expected, command, o, Ok(path)).1) == persisted_edit(
            c,
            expected,
            command,
            o,
            Err(fault),
        ).1,
{
}

/// Rolling back a generated file that could not be written is as good as having been
/// told so.
pub proof fn law_rolled_back_commit_has_failed(
    c: CoreView,
    epoch: u64,
    version: u64,
    dir: Seq<char>,
    f: GeneratedFile,
    regular: Result<bool, Seq<char>>,
    placement: PlacementView,
    action: Seq<char>,
    o: Outside,
    path: Seq<char>,
    fault: CoreFault,
)
    ensures
        rolled_back(
            c,
            generated_committed(
                c,
                epoch,
                version,
                dir,
                f,
                regular,
                placement,
                action,
                o,
                Ok(path),
            ).1,
        ) == generated_committed(
            c,
            epoch,
            version,
            dir,
            f,
            regular,
            placement,
            action,
            o,
            Err(fault),
        ).1,
{
}

/// Rolling back a batch that could not be written is as good as having been told so.
pub proof fn law_rolled_back_batch_has_failed(
    c: CoreView,
    epoch: u64,
    dir: Seq<char>,
    plan: Seq<ImportOpView>,
    registry_fault: Option<Seq<char>>,
    precondition: Result<(), CoreFault>,
    path: Seq<char>,
    fault: CoreFault,
)
    ensures
        rolled_back(
            c,
            batch_imported(c, epoch, dir, plan, registry_fault, precondition, Ok(path)).1,
        ) == batch_imported(c, epoch, dir, plan, registry_fault, precondition, Err(fault)).1,
{
}

/// Rolling back an import, a proxy or a relinked file that could not be written is as
/// good as having been told so.
pub proof fn law_rolled_back_library_work_has_failed(
    c: CoreView,
    epoch: u64,
    dir: Seq<char>,
    candidate: Result<MediaManifestEntryView, CoreFault>,
    library_id: Seq<char>,
    id: Seq<char>,
    proxy: Option<Seq<char>>,
    path: Seq<char>,
    fault: CoreFault,
)
    ensures
        rolled_back(c, library_file_imported(c, epoch, dir, candidate, library_id, Ok(())).1)
            == library_file_imported(c, epoch, dir, candidate, library_id, Err(fault)).1,
        rolled_back(c, proxy_set(c, epoch, dir, id, proxy, Ok(path)).1) == proxy_set(
            c,
            epoch,
            dir,
            id,
            proxy,
            Err(fault),
        ).1,
        c.editor.project_dir is Some ==> rolled_back(
            c,
            relinked_to(c, id, candidate, Ok(path)).1,
        ) == relinked_to(c, id, candidate, Err(fault)).1,
{
}

} // verus!
