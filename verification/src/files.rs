//! File model types and content-type detection from file names.

use vstd::prelude::*;
use crate::models::ContentType;

verus! {

/// Whether `s` has a dot after its first character, so that an
/// extension can be split off.
pub open spec fn spec_has_extension(s: Seq<char>) -> bool {
    exists|i: int| 0 < i < s.len() && s[i] == '.'
}

/// The position of the last dot of `s`.
pub open spec fn spec_last_dot(s: Seq<char>) -> int {
    choose|i: int|
        0 < i < s.len() && s[i] == '.' && (forall|j: int| i < j < s.len() ==> s[j] != '.')
}

/// The extension of file name `name`: everything after the last dot,
/// which must not be the leading character.
pub fn file_extension(name: &str) -> (r: Option<String>)
    ensures
        match r {
            Some(ext) => spec_has_extension(name@) && ext@ == name@.subrange(
                spec_last_dot(name@) + 1,
                name@.len() as int,
            ),
            None => !spec_has_extension(name@),
        },
{
    let n = name.unicode_len();
    let mut last_dot: usize = 0;
    let mut i: usize = 0;
    while i < n
        invariant
            0 <= i <= n,
            n == name@.len(),
            last_dot == 0 || (0 < last_dot < n),
            last_dot > 0 ==> name@[last_dot as int] == '.' && (forall|j: int|
                last_dot < j < i ==> name@[j] != '.'),
            last_dot == 0 ==> forall|j: int| 0 < j < i ==> name@[j] != '.',
        decreases n - i,
    {
        if i > 0 && name.get_char(i) == '.' {
            last_dot = i;
        }
        i = i + 1;
    }
    if last_dot == 0 {
        proof {
            if spec_has_extension(name@) {
                let w = choose|w: int| 0 < w < name@.len() && name@[w] == '.';
                assert(false);
            }
        }
        None
    } else {
        proof {
            let d = spec_last_dot(name@);
            assert(0 < last_dot < name@.len());
            assert(name@[last_dot as int] == '.');
            assert(forall|j: int| last_dot < j < name@.len() ==> name@[j] != '.');
            assert(0 < d < name@.len() && name@[d] == '.' && (forall|j: int|
                d < j < name@.len() ==> name@[j] != '.'));
            assert(d == last_dot);
        }
        let ext = name.substring_char(last_dot + 1, n);
        Some(ext.to_owned())
    }
}

/// The content type detected from a file name's extension.
pub fn detect_content_type(name: &str) -> (r: ContentType)
    ensures
        spec_has_extension(name@) ==> {
            let ext = name@.subrange(spec_last_dot(name@) + 1, name@.len() as int);
            r == if ext == "tex"@ {
                ContentType::Latex
            } else if ext == "bib"@ {
                ContentType::Bibliography
            } else if ext == "png"@ || ext == "jpg"@ || ext == "jpeg"@ || ext == "gif"@ || ext
                == "svg"@ {
                ContentType::Image
            } else {
                ContentType::Other
            }
        },
        !spec_has_extension(name@) ==> r == ContentType::Other,
{
    proof {
        reveal_strlit("tex");
        reveal_strlit("bib");
        reveal_strlit("png");
        reveal_strlit("jpg");
        reveal_strlit("jpeg");
        reveal_strlit("gif");
        reveal_strlit("svg");
    }
    match file_extension(name) {
        Some(ext) => {
            if ext == "tex".to_owned() {
                ContentType::Latex
            } else if ext == "bib".to_owned() {
                ContentType::Bibliography
            } else if ext == "png".to_owned() || ext == "jpg".to_owned() || ext
                == "jpeg".to_owned() || ext == "gif".to_owned() || ext == "svg".to_owned() {
                ContentType::Image
            } else {
                ContentType::Other
            }
        },
        None => ContentType::Other,
    }
}

/// Structured metadata extracted from a LaTeX source file.
#[derive(Clone, Debug)]
pub struct FileMetadata {
    pub citations: Vec<String>,
    pub references: Vec<String>,
    pub labels: Vec<String>,
    pub includes: Vec<String>,
    pub sections: Vec<SectionInfo>,
    pub figures: Vec<FigureInfo>,
    pub tables: Vec<TableInfo>,
    pub equations: Vec<EquationInfo>,
}

/// Section information.
#[derive(Clone, Debug)]
pub struct SectionInfo {
    pub title: String,
    pub level: i32,
    pub line_number: i32,
    pub label: Option<String>,
}

/// Figure information.
#[derive(Clone, Debug)]
pub struct FigureInfo {
    pub caption: String,
    pub label: Option<String>,
    pub line_number: i32,
}

/// Table information.
#[derive(Clone, Debug)]
pub struct TableInfo {
    pub caption: String,
    pub label: Option<String>,
    pub line_number: i32,
}

/// Equation information.
#[derive(Clone, Debug)]
pub struct EquationInfo {
    pub label: Option<String>,
    pub line_number: i32,
}

/// File creation request.
#[derive(Clone, Debug)]
pub struct CreateFile {
    pub name: String,
    pub path: String,
    pub content: Option<String>,
    pub content_type: Option<ContentType>,
}

/// File update request.
#[derive(Clone, Debug)]
pub struct UpdateFile {
    pub name: Option<String>,
    pub path: Option<String>,
    pub content: Option<String>,
    pub content_type: Option<ContentType>,
    pub is_main: Option<bool>,
}

/// A highlighted match in file search results.
#[derive(Clone, Debug)]
pub struct SearchHighlight {
    pub file_path: String,
    pub line_number: i32,
    pub snippet: String,
    pub offset: i32,
    pub length: i32,
}

} // verus!
