//! Generated media: placeholders, progress and outputs, each written before it is
//! told.

use crate::app_core::emitted;
use crate::app_core::identity_fault;
use crate::app_core::imports::library_events;
use crate::app_core::AppCore;
use crate::app_core::CoreView;
use crate::events::media_error;
use crate::events::plainly;
use crate::events::viewed;
use crate::events::CoreError;
use crate::events::CoreEvent;
use crate::events::CoreFault;
use crate::model::MediaManifest;
use crate::model::MediaManifestView;
use crate::session::SessionView;
use crate::state::StateView;
use crate::text::cat2;
use crate::text::same_text;
use vstd::prelude::*;

verus! {

/// What generating media changes in a project: its media library and the log.
#[derive(Debug)]
pub struct GenerationState {
    pub media: MediaManifest,
    pub log: String,
}

/// The view of a [`GenerationState`].
#[verifier::ext_equal]
pub struct GenerationView {
    pub media: MediaManifestView,
    pub log: Seq<char>,
}

impl View for GenerationState {
    type V = GenerationView;

    open spec fn view(&self) -> GenerationView {
        GenerationView { media: self.media@, log: self.log@ }
    }
}

/// What a change of generated media came to, with the value it hands back.
pub open spec fn change_view<T>(r: Result<(GenerationState, T), CoreError>) -> Result<
    (GenerationView, T),
    CoreFault,
> {
    match r {
        Ok(x) => Ok((x.0@, x.1)),
        Err(e) => Err(e@),
    }
}

/// The core with another state of generated media.
pub open spec fn with_generation(c: CoreView, g: GenerationView) -> CoreView {
    CoreView {
        editor: SessionView {
            state: StateView { manifest: g.media, ..c.editor.state },
            generation_log: g.log,
            ..c.editor
        },
        ..c
    }
}

/// A change of generated media for one project. It stands, and is told, only once it
/// has been written.
pub open spec fn generation_changed<T>(
    c: CoreView,
    epoch: u64,
    dir: Seq<char>,
    change: Result<(GenerationView, T), CoreFault>,
    written: Result<Seq<char>, CoreFault>,
) -> (Result<T, CoreFault>, CoreView) {
    match identity_fault(c, epoch, dir) {
        Some(f) => (Err(f), c),
        None => match (change, written) {
            (Err(f), _) => (Err(f), c),
            (_, Err(f)) => (Err(f), c),
            (Ok((g, value)), Ok(path)) => {
                let next = with_generation(c, g);
                (Ok(value), emitted(next, library_events(next, path)))
            },
        },
    }
}

impl AppCore {
    fn persist_generation_mutation_using<T>(
        &mut self,
        expected_project_epoch: u64,
        expected_project_dir: &str,
        change: Result<(GenerationState, T), CoreError>,
        written: Result<String, CoreError>,
    ) -> (r: Result<T, CoreError>)
        ensures
            (plainly(r), final(self)@) == generation_changed(
                old(self)@,
                expected_project_epoch,
                expected_project_dir@,
                change_view(change),
                viewed(written),
            ),
    {
        match self.ensure_project_identity(expected_project_epoch, expected_project_dir) {
            Ok(()) => {},
            Err(e) => return Err(e),
        }
        let (g, value) = match change {
            Ok(x) => x,
            Err(e) => return Err(e),
        };
        let path = match written {
            Ok(path) => path,
            Err(e) => return Err(e),
        };
        self.editor.state.manifest = g.media;
        self.editor.generation_log = g.log;
        let ghost next = self@;
        let count = self.editor.state.manifest.entries.len();
        self.emit(CoreEvent::MediaChanged { project_epoch: expected_project_epoch, count });
        self.emit(CoreEvent::ProjectSaved { path, project_epoch: expected_project_epoch });
        assert(self@.outbox =~= next.outbox + library_events(next, path@));
        Ok(value)
    }

    /// Registers placeholders of a generation job. `change` is what they make of the
    /// project with the job that is handed back, `written` what writing it came to.
    pub fn begin_generation_job_for_project<Job>(
        &mut self,
        expected_project_epoch: u64,
        expected_project_dir: &str,
        change: Result<(GenerationState, Job), CoreError>,
        written: Result<String, CoreError>,
    ) -> (r: Result<Job, CoreError>)
        ensures
            (plainly(r), final(self)@) == generation_changed(
                old(self)@,
                expected_project_epoch,
                expected_project_dir@,
                change_view(change),
                viewed(written),
            ),
    {
        self.persist_generation_mutation_using(
            expected_project_epoch,
            expected_project_dir,
            change,
            written,
        )
    }

    /// Records the progress of a generation job; hands back how many media it
    /// touched.
    pub fn update_generation_job_for_project(
        &mut self,
        expected_project_epoch: u64,
        expected_project_dir: &str,
        change: Result<(GenerationState, usize), CoreError>,
        written: Result<String, CoreError>,
    ) -> (r: Result<usize, CoreError>)
        ensures
            (plainly(r), final(self)@) == generation_changed(
                old(self)@,
                expected_project_epoch,
                expected_project_dir@,
                change_view(change),
                viewed(written),
            ),
    {
        self.persist_generation_mutation_using(
            expected_project_epoch,
            expected_project_dir,
            change,
            written,
        )
    }

    /// Records a finished output.
    pub fn finalize_generation_output_for_project(
        &mut self,
        expected_project_epoch: u64,
        expected_project_dir: &str,
        change: Result<(GenerationState, ()), CoreError>,
        written: Result<String, CoreError>,
    ) -> (r: Result<(), CoreError>)
        ensures
            (plainly(r), final(self)@) == generation_changed(
                old(self)@,
                expected_project_epoch,
                expected_project_dir@,
                change_view(change),
                viewed(written),
            ),
    {
        self.persist_generation_mutation_using(
            expected_project_epoch,
            expected_project_dir,
            change,
            written,
        )
    }

    /// Records a finished output together with its file. The output has to point at
    /// that file.
    pub fn finalize_generation_output_with_media_for_project(
        &mut self,
        expected_project_epoch: u64,
        expected_project_dir: &str,
        relative_path: &str,
        media_leaf: &str,
        change: Result<(GenerationState, ()), CoreError>,
        written: Result<String, CoreError>,
    ) -> (r: Result<(), CoreError>)
        ensures
            (plainly(r), final(self)@) == (if relative_path@ != "media/"@ + media_leaf@ {
                (
                    Err(
                        CoreFault::Media(
                            "generation output path does not match its media leaf"@,
                        ),
                    ),
                    old(self)@,
                )
            } else {
                generation_changed(
                    old(self)@,
                    expected_project_epoch,
                    expected_project_dir@,
                    change_view(change),
                    viewed(written),
                )
            }),
    {
        let expected = cat2("media/", media_leaf);
        if !same_text(relative_path, expected.as_str()) {
            return Err(media_error("generation output path does not match its media leaf"));
        }
        self.persist_generation_mutation_using(
            expected_project_epoch,
            expected_project_dir,
            change,
            written,
        )
    }

    /// Records a failed output.
    pub fn fail_generation_output_for_project(
        &mut self,
        expected_project_epoch: u64,
        expected_project_dir: &str,
        change: Result<(GenerationState, ()), CoreError>,
        written: Result<String, CoreError>,
    ) -> (r: Result<(), CoreError>)
        ensures
            (plainly(r), final(self)@) == generation_changed(
                old(self)@,
                expected_project_epoch,
                expected_project_dir@,
                change_view(change),
                viewed(written),
            ),
    {
        self.persist_generation_mutation_using(
            expected_project_epoch,
            expected_project_dir,
            change,
            written,
        )
    }

    /// Records a cancelled output.
    pub fn cancel_generation_output_for_project(
        &mut self,
        expected_project_epoch: u64,
        expected_project_dir: &str,
        change: Result<(GenerationState, ()), CoreError>,
        written: Result<String, CoreError>,
    ) -> (r: Result<(), CoreError>)
        ensures
            (plainly(r), final(self)@) == generation_changed(
                old(self)@,
                expected_project_epoch,
                expected_project_dir@,
                change_view(change),
                viewed(written),
            ),
    {
        self.persist_generation_mutation_using(
            expected_project_epoch,
            expected_project_dir,
            change,
            written,
        )
    }
}

/// A change of generated media that fails, or cannot be written, or is meant for
/// another project, leaves the core as it was and is not told.
pub proof fn law_failed_generation_leaves_nothing<T>(
    c: CoreView,
    epoch: u64,
    dir: Seq<char>,
    change: Result<(GenerationView, T), CoreFault>,
    written: Result<Seq<char>, CoreFault>,
)
    requires
        generation_changed(c, epoch, dir, change, written).0 is Err,
    ensures
        generation_changed(c, epoch, dir, change, written).1 == c,
{
}

} // verus!
