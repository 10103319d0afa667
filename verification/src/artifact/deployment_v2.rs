//! The second deployment artifact version: it states whether it holds a protected value.

use vstd::prelude::*;

use crate::artifact::{artifact_data, status_name, status_text, ArtifactData, ArtifactDataView};
use crate::render::DeploymentRendering;

verus! {

/// The schema version this artifact is written with.
pub const SCHEMA_VERSION: u8 = 2;

/// The content of a second-version artifact: its status spelling and its rendering data.
pub struct DeploymentArtifactView {
    pub status: Seq<char>,
    pub data: ArtifactDataView,
}

/// A second-version deployment artifact, which says whether it holds a protected inline value.
pub struct DeploymentArtifact {
    status: &'static str,
    data: ArtifactData,
}

impl View for DeploymentArtifact {
    type V = DeploymentArtifactView;

    closed spec fn view(&self) -> DeploymentArtifactView {
        DeploymentArtifactView { status: self.status@, data: self.data@ }
    }
}

/// The second-version artifact of a rendering.
pub fn deployment(source: &DeploymentRendering) -> (r: DeploymentArtifact)
    ensures
        r@ == (DeploymentArtifactView { status: status_name(source@.status), data: artifact_data(source@) }),
{
    DeploymentArtifact::from_rendering(source)
}

impl DeploymentArtifact {
    /// Records a rendering's status and data.
    pub fn from_rendering(source: &DeploymentRendering) -> (r: Self)
        ensures
            r@ == (DeploymentArtifactView { status: status_name(source@.status), data: artifact_data(source@) }),
    {
        DeploymentArtifact { status: status_text(source.status()), data: ArtifactData::from_rendering(source) }
    }

    /// The schema version of this artifact.
    pub fn schema_version(&self) -> (r: u8)
        ensures
            r == SCHEMA_VERSION,
    {
        SCHEMA_VERSION
    }

    /// The spelling of the rendering's status.
    pub fn status(&self) -> (r: &'static str)
        ensures
            r@ == self@.status,
    {
        self.status
    }

    /// Whether the artifact holds a protected inline environment value: never, since the
    /// renderer refuses sensitive environment values rather than place them inline.
    pub fn contains_protected_inline_environment(&self) -> (r: bool)
        ensures
            r == false,
    {
        false
    }

    /// The recorded rendering data.
    pub fn data(&self) -> (r: &ArtifactData)
        ensures
            r@ == self@.data,
    {
        &self.data
    }
}

} // verus!
