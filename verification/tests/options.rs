use std::path::PathBuf;

use binary_inspector::cli::Cli;

fn cli() -> Cli {
    Cli {
        file: PathBuf::from("fixture"),
        sections: false,
        segments: false,
        dependencies: false,
        symbols: false,
        mitigations: false,
        notes: false,
        relocations: false,
        all: false,
        json: false,
        no_color: false,
    }
}

#[test]
fn no_category_flag_selects_every_category() {
    let o = cli().report_options();
    assert!(o.sections && o.segments && o.dependencies && o.symbols && o.mitigations && o.notes && o.relocations);
}

#[test]
fn category_flags_combine() {
    let mut c = cli();
    c.sections = true;
    c.dependencies = true;
    let o = c.report_options();
    assert!(o.sections && o.dependencies);
    assert!(!o.segments && !o.symbols && !o.mitigations && !o.notes && !o.relocations);
}

#[test]
fn all_overrides_the_selection() {
    let mut c = cli();
    c.notes = true;
    c.all = true;
    let o = c.report_options();
    assert!(o.sections && o.segments && o.dependencies && o.symbols && o.mitigations && o.notes && o.relocations);
}
