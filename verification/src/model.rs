//! The data model: a stored document and the inputs of the store operations.
use vstd::prelude::*;

verus! {

/// The mathematical value of an optional string.
pub open spec fn view_opt_string(o: Option<String>) -> Option<Seq<char>> {
    match o {
        Some(s) => Some(s@),
        None => None,
    }
}

/// One stored document, as handed to and returned by every operation.
#[derive(Debug, Clone, PartialEq, Eq)]
pub struct PromptItem {
    pub id: String,
    pub title: String,
    pub content: String,
    pub tags: Vec<String>,
    pub description: Option<String>,
    pub use_count: u32,
    pub last_used: Option<String>,
    pub created_at: String,
    pub updated_at: String,
    pub file_path: String,
    pub folder: String,
}

/// The mathematical value of a `PromptItem`.
#[verifier::ext_equal]
pub struct PromptSpec {
    pub id: Seq<char>,
    pub title: Seq<char>,
    pub content: Seq<char>,
    pub tags: Seq<Seq<char>>,
    pub description: Option<Seq<char>>,
    pub use_count: u32,
    pub last_used: Option<Seq<char>>,
    pub created_at: Seq<char>,
    pub updated_at: Seq<char>,
    pub file_path: Seq<char>,
    pub folder: Seq<char>,
}

impl View for PromptItem {
    type V = PromptSpec;

    open spec fn view(&self) -> PromptSpec {
        PromptSpec {
            id: self.id@,
            title: self.title@,
            content: self.content@,
            tags: self.tags.deep_view(),
            description: view_opt_string(self.description),
            use_count: self.use_count,
            last_used: view_opt_string(self.last_used),
            created_at: self.created_at@,
            updated_at: self.updated_at@,
            file_path: self.file_path@,
            folder: self.folder@,
        }
    }
}

/// The metadata block of a document file, without the body.
#[derive(Debug, Clone, PartialEq, Eq)]
pub struct PromptFrontmatter {
    pub title: String,
    pub tags: Vec<String>,
    pub description: Option<String>,
    pub use_count: u32,
    pub last_used: Option<String>,
    pub created_at: String,
    pub updated_at: String,
}

/// The mathematical value of a `PromptFrontmatter`.
#[verifier::ext_equal]
pub struct FrontSpec {
    pub title: Seq<char>,
    pub tags: Seq<Seq<char>>,
    pub description: Option<Seq<char>>,
    pub use_count: u32,
    pub last_used: Option<Seq<char>>,
    pub created_at: Seq<char>,
    pub updated_at: Seq<char>,
}

impl View for PromptFrontmatter {
    type V = FrontSpec;

    open spec fn view(&self) -> FrontSpec {
        FrontSpec {
            title: self.title@,
            tags: self.tags.deep_view(),
            description: view_opt_string(self.description),
            use_count: self.use_count,
            last_used: view_opt_string(self.last_used),
            created_at: self.created_at@,
            updated_at: self.updated_at@,
        }
    }
}

/// A directory entry, as the caller reads it from the file system.
#[derive(Debug, Clone, PartialEq, Eq)]
pub struct FileInfo {
    pub name: String,
    pub path: String,
    pub size: u64,
    pub modified_at: String,
}

/// The input of `create_prompt`.
#[derive(Debug, Clone, PartialEq, Eq)]
pub struct CreatePromptInput {
    pub title: String,
    pub content: String,
    pub tags: Vec<String>,
    pub description: Option<String>,
    pub folder: String,
}

/// The partial input of `update_prompt`: `None` leaves a field unchanged.
#[derive(Debug, Clone, PartialEq, Eq)]
pub struct UpdatePromptInput {
    pub title: Option<String>,
    pub content: Option<String>,
    pub tags: Option<Vec<String>>,
    pub description: Option<String>,
}

/// The mathematical value of an `UpdatePromptInput`.
#[verifier::ext_equal]
pub struct UpdateSpec {
    pub title: Option<Seq<char>>,
    pub content: Option<Seq<char>>,
    pub tags: Option<Seq<Seq<char>>>,
    pub description: Option<Seq<char>>,
}

impl View for UpdatePromptInput {
    type V = UpdateSpec;

    open spec fn view(&self) -> UpdateSpec {
        UpdateSpec {
            title: view_opt_string(self.title),
            content: view_opt_string(self.content),
            tags: match self.tags {
                Some(ts) => Some(ts.deep_view()),
                None => None,
            },
            description: view_opt_string(self.description),
        }
    }
}

/// Presentation preferences; the store itself never reads them.
#[derive(Debug, Clone, PartialEq, Eq)]
pub struct UIConfig {
    pub hotkey: String,
    pub close_after_copy: bool,
    pub remember_position: bool,
    pub window_position: String,
    pub theme: String,
    pub font_size: u32,
    pub opacity: u32,
    pub language: String,
}

/// The storage preference the path resolver reads: an optional override path
/// (empty means "use the default root") and a format tag.
#[derive(Debug, Clone, PartialEq, Eq)]
pub struct StorageConfig {
    pub path: String,
    pub format: String,
}

} // verus!
