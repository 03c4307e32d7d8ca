//! The taxonomy data model: a structure owns areas, an area owns
//! categories, a category owns items, and an item holds file paths.
//! Each executable type has a mathematical view used by the contracts.

use vstd::prelude::*;

verus! {

/// One file handed to the builder or the assigner. Fields a caller could
/// not supply stay `None` and are treated as absent.
#[derive(Debug, Clone, PartialEq, Eq)]
pub struct FileDescriptor {
    pub path: Option<String>,
    pub extension: Option<String>,
}

#[derive(Debug, Clone, PartialEq, Eq)]
pub struct JDStructure {
    pub id: String,
    pub name: String,
    pub root_path: String,
    pub areas: Vec<JDArea>,
    /// Creation time, in milliseconds since the Unix epoch.
    pub created_at: i64,
    /// Last-modification time, in milliseconds since the Unix epoch.
    pub modified_at: i64,
}

#[derive(Debug, Clone, PartialEq, Eq)]
pub struct JDArea {
    /// 10, 20, 30, and so on.
    pub number: u8,
    pub name: String,
    pub description: Option<String>,
    pub categories: Vec<JDCategory>,
}

#[derive(Debug, Clone, PartialEq, Eq)]
pub struct JDCategory {
    /// 11, 12, 13, and so on.
    pub number: u8,
    pub name: String,
    pub description: Option<String>,
    pub items: Vec<JDItem>,
}

#[derive(Debug, Clone, PartialEq, Eq)]
pub struct JDItem {
    /// "11.01", "11.02", and so on.
    pub number: String,
    pub name: String,
    pub description: Option<String>,
    /// File paths; insertion order is kept.
    pub files: Vec<String>,
}

#[derive(Debug, Clone, PartialEq, Eq)]
pub struct CategoryAssignment {
    pub area_number: u8,
    pub category_number: u8,
    pub item_number: String,
    /// Confidence in hundredths: 0 stands for 0.0, 100 for 1.0.
    pub confidence: u32,
    pub reasoning: String,
}

#[derive(Debug, Clone, PartialEq, Eq)]
pub struct JDValidationResult {
    pub is_valid: bool,
    pub errors: Vec<JDValidationError>,
    pub warnings: Vec<JDValidationWarning>,
}

#[derive(Debug, Clone, PartialEq, Eq)]
pub struct JDValidationError {
    pub error_type: String,
    pub message: String,
    pub area_number: Option<u8>,
    pub category_number: Option<u8>,
}

#[derive(Debug, Clone, PartialEq, Eq)]
pub struct JDValidationWarning {
    pub warning_type: String,
    pub message: String,
    pub suggestion: Option<String>,
}

/// Mathematical view of a `FileDescriptor`.
pub struct FdV {
    pub path: Option<Seq<char>>,
    pub extension: Option<Seq<char>>,
}

/// Mathematical view of a `JDItem`.
pub struct ItemV {
    pub number: Seq<char>,
    pub name: Seq<char>,
    pub description: Option<Seq<char>>,
    pub files: Seq<Seq<char>>,
}

/// Mathematical view of a `JDCategory`.
pub struct CatV {
    pub number: u8,
    pub name: Seq<char>,
    pub description: Option<Seq<char>>,
    pub items: Seq<ItemV>,
}

/// Mathematical view of a `JDArea`.
pub struct AreaV {
    pub number: u8,
    pub name: Seq<char>,
    pub description: Option<Seq<char>>,
    pub categories: Seq<CatV>,
}

/// Mathematical view of a `JDStructure`.
pub struct StructV {
    pub id: Seq<char>,
    pub name: Seq<char>,
    pub root_path: Seq<char>,
    pub areas: Seq<AreaV>,
    pub created_at: i64,
    pub modified_at: i64,
}

/// Mathematical view of a `CategoryAssignment`.
pub struct AsgV {
    pub area_number: u8,
    pub category_number: u8,
    pub item_number: Seq<char>,
    pub confidence: u32,
    pub reasoning: Seq<char>,
}

/// Mathematical view of a `JDValidationError`.
pub struct ErrV {
    pub error_type: Seq<char>,
    pub message: Seq<char>,
    pub area_number: Option<u8>,
    pub category_number: Option<u8>,
}

/// Mathematical view of a `JDValidationWarning`.
pub struct WarnV {
    pub warning_type: Seq<char>,
    pub message: Seq<char>,
    pub suggestion: Option<Seq<char>>,
}

/// Mathematical view of a `JDValidationResult`.
pub struct RepV {
    pub is_valid: bool,
    pub errors: Seq<ErrV>,
    pub warnings: Seq<WarnV>,
}

impl View for FileDescriptor {
    type V = FdV;

    open spec fn view(&self) -> FdV {
        FdV { path: self.path.deep_view(), extension: self.extension.deep_view() }
    }
}

impl DeepView for FileDescriptor {
    type V = FdV;

    open spec fn deep_view(&self) -> FdV {
        self.view()
    }
}

impl View for JDItem {
    type V = ItemV;

    open spec fn view(&self) -> ItemV {
        ItemV {
            number: self.number@,
            name: self.name@,
            description: self.description.deep_view(),
            files: self.files.deep_view(),
        }
    }
}

impl DeepView for JDItem {
    type V = ItemV;

    open spec fn deep_view(&self) -> ItemV {
        self.view()
    }
}

impl View for JDCategory {
    type V = CatV;

    open spec fn view(&self) -> CatV {
        CatV {
            number: self.number,
            name: self.name@,
            description: self.description.deep_view(),
            items: self.items.deep_view(),
        }
    }
}

impl DeepView for JDCategory {
    type V = CatV;

    open spec fn deep_view(&self) -> CatV {
        self.view()
    }
}

impl View for JDArea {
    type V = AreaV;

    open spec fn view(&self) -> AreaV {
        AreaV {
            number: self.number,
            name: self.name@,
            description: self.description.deep_view(),
            categories: self.categories.deep_view(),
        }
    }
}

impl DeepView for JDArea {
    type V = AreaV;

    open spec fn deep_view(&self) -> AreaV {
        self.view()
    }
}

impl View for JDStructure {
    type V = StructV;

    open spec fn view(&self) -> StructV {
        StructV {
            id: self.id@,
            name: self.name@,
            root_path: self.root_path@,
            areas: self.areas.deep_view(),
            created_at: self.created_at,
            modified_at: self.modified_at,
        }
    }
}

impl DeepView for JDStructure {
    type V = StructV;

    open spec fn deep_view(&self) -> StructV {
        self.view()
    }
}

impl View for CategoryAssignment {
    type V = AsgV;

    open spec fn view(&self) -> AsgV {
        AsgV {
            area_number: self.area_number,
            category_number: self.category_number,
            item_number: self.item_number@,
            confidence: self.confidence,
            reasoning: self.reasoning@,
        }
    }
}

impl View for JDValidationError {
    type V = ErrV;

    open spec fn view(&self) -> ErrV {
        ErrV {
            error_type: self.error_type@,
            message: self.message@,
            area_number: self.area_number,
            category_number: self.category_number,
        }
    }
}

impl DeepView for JDValidationError {
    type V = ErrV;

    open spec fn deep_view(&self) -> ErrV {
        self.view()
    }
}

impl View for JDValidationWarning {
    type V = WarnV;

    open spec fn view(&self) -> WarnV {
        WarnV {
            warning_type: self.warning_type@,
            message: self.message@,
            suggestion: self.suggestion.deep_view(),
        }
    }
}

impl DeepView for JDValidationWarning {
    type V = WarnV;

    open spec fn deep_view(&self) -> WarnV {
        self.view()
    }
}

impl View for JDValidationResult {
    type V = RepV;

    open spec fn view(&self) -> RepV {
        RepV {
            is_valid: self.is_valid,
            errors: self.errors.deep_view(),
            warnings: self.warnings.deep_view(),
        }
    }
}

} // verus!
