//! Command-line options and the report categories they select.

use vstd::prelude::*;
use crate::report::ReportOptions;

verus! {

#[verifier::external_type_specification]
#[verifier::external_body]
pub struct ExPathBuf(std::path::PathBuf);

/// Inspect metadata in an ELF binary without executing it.
#[derive(Debug)]
pub struct Cli {
    /// ELF file to inspect.
    pub file: std::path::PathBuf,
    /// Include section information.
    pub sections: bool,
    /// Include program segments.
    pub segments: bool,
    /// Include dynamic dependencies and loader metadata.
    pub dependencies: bool,
    /// Include symbol tables.
    pub symbols: bool,
    /// Include security hardening mitigations (checksec).
    pub mitigations: bool,
    /// Include ELF notes and build information.
    pub notes: bool,
    /// Include relocation entries.
    pub relocations: bool,
    /// Include every available category (the default).
    pub all: bool,
    /// Emit versioned JSON (schema 1) to stdout instead of human text.
    pub json: bool,
    /// Disable color (human output is currently uncolored).
    pub no_color: bool,
}

impl Cli {
    /// Whether every category is shown: on `--all`, and when no category flag is given.
    pub open spec fn shows_all(&self) -> bool {
        self.all || !(self.sections || self.segments || self.dependencies || self.symbols || self.mitigations
            || self.notes || self.relocations)
    }

    /// The report categories selected on the command line: each named
    /// category, or all of them when none is named or `--all` is given.
    pub fn report_options(&self) -> (o: ReportOptions)
        ensures
            o.sections == (self.shows_all() || self.sections),
            o.segments == (self.shows_all() || self.segments),
            o.dependencies == (self.shows_all() || self.dependencies),
            o.symbols == (self.shows_all() || self.symbols),
            o.mitigations == (self.shows_all() || self.mitigations),
            o.notes == (self.shows_all() || self.notes),
            o.relocations == (self.shows_all() || self.relocations),
    {
        let all = self.all || !(self.sections || self.segments || self.dependencies || self.symbols || self.mitigations
            || self.notes || self.relocations);
        ReportOptions {
            sections: all || self.sections,
            segments: all || self.segments,
            dependencies: all || self.dependencies,
            symbols: all || self.symbols,
            mitigations: all || self.mitigations,
            notes: all || self.notes,
            relocations: all || self.relocations,
        }
    }
}

} // verus!
