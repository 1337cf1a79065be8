//! Site-wide configuration, including the GitHub settings the comments
//! widget needs. Reading values from the environment is the caller's
//! business; the records here hold plain values.

use vstd::prelude::*;
use vstd::string::StringExecFns;

verus! {

/// Blog-specific configuration.
pub struct BlogConfig {
    /// GitHub repository owner for the comments integration.
    pub github_owner: String,
    /// GitHub repository name for the comments integration.
    pub github_repo: String,
    /// Whether comments are enabled globally.
    pub comments_enabled: bool,
}

impl BlogConfig {
    /// A blog configuration with no repository set and comments enabled.
    pub fn new() -> (r: BlogConfig)
        ensures
            r.github_owner@.len() == 0,
            r.github_repo@.len() == 0,
            r.comments_enabled,
    {
        BlogConfig { github_owner: String::new(), github_repo: String::new(), comments_enabled: true }
    }

    /// Comments can be rendered iff both repository fields are set and
    /// comments are enabled.
    pub fn is_valid_for_comments(&self) -> (r: bool)
        ensures
            r == (self.github_owner@.len() > 0 && self.github_repo@.len() > 0
                && self.comments_enabled),
    {
        !self.github_owner.as_str().is_empty() && !self.github_repo.as_str().is_empty()
            && self.comments_enabled
    }
}

impl Default for BlogConfig {
    /// Same as `BlogConfig::new`.
    fn default() -> (r: BlogConfig)
        ensures
            r.github_owner@.len() == 0,
            r.github_repo@.len() == 0,
            r.comments_enabled,
    {
        BlogConfig::new()
    }
}

/// Configuration for one site build.
pub struct Config {
    /// Directory the markdown documents are read from.
    pub input_dir: String,
    /// Directory the rendered site is written to.
    pub output_dir: String,
    /// Base URL prepended to absolute links.
    pub base_url: String,
    /// Title shown on every page.
    pub site_title: String,
    /// Whether to report per-document progress.
    pub verbose: bool,
    /// Whether to keep rebuilding as the input changes.
    pub watch: bool,
    /// Blog settings.
    pub blog: BlogConfig,
}

impl Config {
    /// A configuration for the given directories, with the base URL `/`
    /// and the default site title.
    pub fn new(input_dir: String, output_dir: String) -> (r: Config)
        ensures
            r.input_dir == input_dir,
            r.output_dir == output_dir,
            r.base_url@ == "/"@,
            r.site_title@ == "Knowledge Base"@,
            !r.verbose,
            !r.watch,
            r.blog.github_owner@.len() == 0,
            r.blog.github_repo@.len() == 0,
            r.blog.comments_enabled,
    {
        let mut base_url = String::new();
        base_url.append("/");
        let mut site_title = String::new();
        site_title.append("Knowledge Base");
        Config {
            input_dir,
            output_dir,
            base_url,
            site_title,
            verbose: false,
            watch: false,
            blog: BlogConfig::new(),
        }
    }
}

} // verus!
