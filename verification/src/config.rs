//! The configuration of one run.

use vstd::prelude::*;

verus! {

/// Where a site is read from and written to. It is loaded once and does not
/// change during the run.
#[derive(Debug)]
pub struct Config {
    /// The directory under which the Markdown documents lie.
    pub source_dir: String,
    /// The directory under which the pages are written.
    pub output_dir: String,
    /// The file that holds the page template.
    pub template_file: String,
    /// The stylesheet of the site, if it has one.
    pub css_file: Option<String>,
}

/// A `Config` as texts.
pub struct ConfigView {
    pub source_dir: Seq<char>,
    pub output_dir: Seq<char>,
    pub template_file: Seq<char>,
    pub css_file: Option<Seq<char>>,
}

impl View for Config {
    type V = ConfigView;

    open spec fn view(&self) -> ConfigView {
        ConfigView {
            source_dir: self.source_dir@,
            output_dir: self.output_dir@,
            template_file: self.template_file@,
            css_file: match self.css_file {
                Some(path) => Some(path@),
                None => None,
            },
        }
    }
}

} // verus!
