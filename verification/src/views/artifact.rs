use vstd::prelude::*;
use crate::paths::same_text;

verus! {

/// The build system or tool that a directory of build output belongs to.
#[derive(Debug, Clone, Copy, PartialEq, Eq, Structural)]
pub enum ArtifactKind {
    Rust,
    Xcode,
    Node,
    Generic,
    Gradle,
    Python,
    CocoaPods,
    NextNuxt,
    Vendor,
    Cache,
}

impl ArtifactKind {
    pub open spec fn spec_label(self) -> Seq<char> {
        match self {
            ArtifactKind::Rust => "Rust"@,
            ArtifactKind::Xcode => "Xcode"@,
            ArtifactKind::Node => "Node"@,
            ArtifactKind::Generic => "Build"@,
            ArtifactKind::Gradle => "Gradle"@,
            ArtifactKind::Python => "Python"@,
            ArtifactKind::CocoaPods => "CocoaPods"@,
            ArtifactKind::NextNuxt => "Next/Nuxt"@,
            ArtifactKind::Vendor => "Vendor"@,
            ArtifactKind::Cache => "Cache"@,
        }
    }

    pub fn label(&self) -> (s: &'static str)
        ensures
            s@ == self.spec_label(),
    {
        match self {
            ArtifactKind::Rust => "Rust",
            ArtifactKind::Xcode => "Xcode",
            ArtifactKind::Node => "Node",
            ArtifactKind::Generic => "Build",
            ArtifactKind::Gradle => "Gradle",
            ArtifactKind::Python => "Python",
            ArtifactKind::CocoaPods => "CocoaPods",
            ArtifactKind::NextNuxt => "Next/Nuxt",
            ArtifactKind::Vendor => "Vendor",
            ArtifactKind::Cache => "Cache",
        }
    }
}

/// The classifier table: what a directory of this name holds, if it is build output.
pub open spec fn artifact_of(name: Seq<char>) -> Option<ArtifactKind> {
    if name == "target"@ {
        Some(ArtifactKind::Rust)
    } else if name == "DerivedData"@ || name == "Build"@ {
        Some(ArtifactKind::Xcode)
    } else if name == "node_modules"@ {
        Some(ArtifactKind::Node)
    } else if name == "build"@ || name == "dist"@ {
        Some(ArtifactKind::Generic)
    } else if name == ".gradle"@ {
        Some(ArtifactKind::Gradle)
    } else if name == "__pycache__"@ || name == ".tox"@ || name == ".venv"@ || name == "venv"@ {
        Some(ArtifactKind::Python)
    } else if name == "Pods"@ {
        Some(ArtifactKind::CocoaPods)
    } else if name == ".next"@ || name == ".nuxt"@ {
        Some(ArtifactKind::NextNuxt)
    } else if name == "vendor"@ {
        Some(ArtifactKind::Vendor)
    } else if name == ".cache"@ {
        Some(ArtifactKind::Cache)
    } else {
        None
    }
}

/// Classify a directory by its name.
pub fn classify_artifact(name: &str) -> (kind: Option<ArtifactKind>)
    ensures
        kind == artifact_of(name@),
{
    if same_text(name, "target") {
        Some(ArtifactKind::Rust)
    } else if same_text(name, "DerivedData") || same_text(name, "Build") {
        Some(ArtifactKind::Xcode)
    } else if same_text(name, "node_modules") {
        Some(ArtifactKind::Node)
    } else if same_text(name, "build") || same_text(name, "dist") {
        Some(ArtifactKind::Generic)
    } else if same_text(name, ".gradle") {
        Some(ArtifactKind::Gradle)
    } else if same_text(name, "__pycache__") || same_text(name, ".tox") || same_text(name, ".venv")
        || same_text(name, "venv") {
        Some(ArtifactKind::Python)
    } else if same_text(name, "Pods") {
        Some(ArtifactKind::CocoaPods)
    } else if same_text(name, ".next") || same_text(name, ".nuxt") {
        Some(ArtifactKind::NextNuxt)
    } else if same_text(name, "vendor") {
        Some(ArtifactKind::Vendor)
    } else if same_text(name, ".cache") {
        Some(ArtifactKind::Cache)
    } else {
        None
    }
}

} // verus!
