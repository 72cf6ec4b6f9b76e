//! Tool configuration and the user's author/narrator mappings.
use std::collections::HashMap;
use vstd::prelude::*;
use vstd::string::StringExecFns;

verus! {

#[derive(Debug, Clone)]
pub struct Config {
    pub paths: PathsConfig,
    pub cleaning: CleaningConfig,
    pub merging: MergingConfig,
    pub metadata: MetadataConfig,
    pub organization: OrganizationConfig,
    pub mappings: MappingsConfig,
}

#[derive(Debug, Clone)]
pub struct PathsConfig {
    pub source: Option<String>,
    pub output: Option<String>,
    pub quarantine: Option<String>,
    pub logs: Option<String>,
}

#[derive(Debug, Clone, Copy, PartialEq, Eq, Structural)]
pub struct CleaningConfig {
    pub remove_brackets: bool,
    pub remove_parentheses: bool,
    pub normalize_underscores: bool,
    pub normalize_spaces: bool,
}

#[derive(Debug, Clone)]
pub struct MergingConfig {
    pub enabled: bool,
    pub mode: String,
    pub bitrate: u32,
}

#[derive(Debug, Clone, Copy, PartialEq, Eq, Structural)]
pub struct MetadataConfig {
    pub extract_from_filename: bool,
    pub extract_from_folder: bool,
    pub extract_from_id3: bool,
}

#[derive(Debug, Clone)]
pub struct OrganizationConfig {
    pub structure: String,
    pub handle_duplicates: String,
    pub move_files: bool,
}

/// Names the user has declared as authors and as narrators, and known
/// audiobooks keyed by folder name.
#[derive(Debug, Clone)]
pub struct MappingsConfig {
    pub authors: Vec<String>,
    pub narrators: Vec<String>,
    pub audiobook_patterns: HashMap<String, AudiobookMapping>,
}

#[derive(Debug, Clone)]
pub struct AudiobookMapping {
    pub author: String,
    pub title: String,
}

impl PathsConfig {
    pub open spec fn is_default(self) -> bool {
        &&& self.source is None
        &&& self.output is None
        &&& self.quarantine is None
        &&& self.logs is None
    }
}

impl Default for PathsConfig {
    fn default() -> (r: Self)
        ensures
            r.is_default(),
    {
        PathsConfig { source: None, output: None, quarantine: None, logs: None }
    }
}

impl Default for CleaningConfig {
    /// Every cleaning step enabled.
    fn default() -> (r: Self)
        ensures
            r == (CleaningConfig {
                remove_brackets: true,
                remove_parentheses: true,
                normalize_underscores: true,
                normalize_spaces: true,
            }),
    {
        CleaningConfig {
            remove_brackets: true,
            remove_parentheses: true,
            normalize_underscores: true,
            normalize_spaces: true,
        }
    }
}

impl MergingConfig {
    pub open spec fn is_default(self) -> bool {
        &&& self.enabled
        &&& self.mode@ == "copy"@
        &&& self.bitrate == 128
    }
}

impl Default for MergingConfig {
    fn default() -> (r: Self)
        ensures
            r.is_default(),
    {
        MergingConfig { enabled: true, mode: String::from_str("copy"), bitrate: 128 }
    }
}

impl Default for MetadataConfig {
    /// Every metadata source enabled.
    fn default() -> (r: Self)
        ensures
            r == (MetadataConfig {
                extract_from_filename: true,
                extract_from_folder: true,
                extract_from_id3: true,
            }),
    {
        MetadataConfig { extract_from_filename: true, extract_from_folder: true, extract_from_id3: true }
    }
}

impl OrganizationConfig {
    pub open spec fn is_default(self) -> bool {
        &&& self.structure@ == "author/title"@
        &&& self.handle_duplicates@ == "rename"@
        &&& !self.move_files
    }
}

impl Default for OrganizationConfig {
    fn default() -> (r: Self)
        ensures
            r.is_default(),
    {
        OrganizationConfig {
            structure: String::from_str("author/title"),
            handle_duplicates: String::from_str("rename"),
            move_files: false,
        }
    }
}

impl MappingsConfig {
    pub open spec fn is_default(self) -> bool {
        &&& self.authors@.len() == 0
        &&& self.narrators@.len() == 0
        &&& self.audiobook_patterns@ == Map::<String, AudiobookMapping>::empty()
    }
}

impl Default for MappingsConfig {
    /// No mappings.
    fn default() -> (r: Self)
        ensures
            r.is_default(),
    {
        MappingsConfig { authors: Vec::new(), narrators: Vec::new(), audiobook_patterns: HashMap::new() }
    }
}

impl Config {
    pub open spec fn is_default(self) -> bool {
        &&& self.paths.is_default()
        &&& self.cleaning == (CleaningConfig {
            remove_brackets: true,
            remove_parentheses: true,
            normalize_underscores: true,
            normalize_spaces: true,
        })
        &&& self.merging.is_default()
        &&& self.metadata == (MetadataConfig {
            extract_from_filename: true,
            extract_from_folder: true,
            extract_from_id3: true,
        })
        &&& self.organization.is_default()
        &&& self.mappings.is_default()
    }

    /// The configuration used when no configuration file exists.
    pub fn default_config() -> (r: Self)
        ensures
            r.is_default(),
    {
        Config {
            paths: PathsConfig::default(),
            cleaning: CleaningConfig::default(),
            merging: MergingConfig::default(),
            metadata: MetadataConfig::default(),
            organization: OrganizationConfig::default(),
            mappings: MappingsConfig::default(),
        }
    }
}

} // verus!
