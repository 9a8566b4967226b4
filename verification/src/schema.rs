//! The schema contract: the shape of the document the model is asked to
//! return, as plain owned values.
use vstd::prelude::*;

verus! {

/// One generated source file: a relative path (possibly with subdirectories)
/// and its raw text.
#[derive(Debug, Clone)]
pub struct SourceFile {
    pub name: String,
    pub contents: String,
}

impl SourceFile {
    /// A source file entry is well formed when its name is not empty.
    pub open spec fn wf(&self) -> bool {
        self.name@.len() > 0
    }
}

/// The decoded model response: the three fixed project files, an advisory
/// joke, and the ordered list of source files. Duplicate source-file names
/// are allowed; at write time the later entry wins.
#[derive(Debug, Clone)]
pub struct OutputJson {
    pub dockerfile: String,
    pub makefile: String,
    pub readme: String,
    pub joke: Option<String>,
    pub source_files: Vec<SourceFile>,
}

impl OutputJson {
    /// A document is well formed when every source file entry is.
    pub open spec fn wf(&self) -> bool {
        forall|i: int| 0 <= i < self.source_files@.len() ==> (#[trigger] self.source_files@[i]).wf()
    }
}

} // verus!
