//! A save: a directory of the game's files, shown under a name.

use vstd::prelude::*;
use crate::error::MetadataError;
use crate::metadata::{decode_spec, SaveInfoView};

pub use crate::metadata::SaveInfo;

verus! {

/// The file that holds a save's encrypted metadata.
pub const METADATA_FILE: &'static str = "meta.txt";

/// A save: one of the game's slots, an external save or a backup.
#[derive(Debug, PartialEq, Eq)]
pub struct Save {
    /// The name the save is shown under.
    pub name: String,
    /// The directory of the save's files.
    pub path: String,
    /// Whether this is the game's copy of a slot from before a point of no
    /// return.
    pub nrp_backup: bool,
    /// Whether the directory was found; `false` for the stand-in of an
    /// empty slot.
    pub exists: bool,
    /// The decoded metadata, once it has been read.
    pub info: Option<SaveInfo>,
}

/// The mathematical content of a `Save`.
pub struct SaveView {
    pub name: Seq<char>,
    pub path: Seq<char>,
    pub nrp_backup: bool,
    pub exists: bool,
    pub info: Option<SaveInfoView>,
}

impl SaveView {
    /// A save that was not found has no metadata.
    pub open spec fn wf(self) -> bool {
        !self.exists ==> self.info is None
    }
}

impl View for Save {
    type V = SaveView;

    open spec fn view(&self) -> SaveView {
        SaveView {
            name: self.name@,
            path: self.path@,
            nrp_backup: self.nrp_backup,
            exists: self.exists,
            info: match self.info {
                Some(info) => Some(info@),
                None => None,
            },
        }
    }
}

impl Clone for Save {
    fn clone(&self) -> (copy: Self)
        ensures
            copy == *self,
    {
        Save {
            name: self.name.clone(),
            path: self.path.clone(),
            nrp_backup: self.nrp_backup,
            exists: self.exists,
            info: match &self.info {
                Some(info) => Some(info.clone()),
                None => None,
            },
        }
    }
}

/// The views of a list of saves.
pub open spec fn saves_view(saves: Seq<Save>) -> Seq<SaveView> {
    saves.map_values(|s: Save| s@)
}

/// Whether every save of a list is well formed.
pub open spec fn all_wf(saves: Seq<SaveView>) -> bool {
    forall|k: int| 0 <= k < saves.len() ==> (#[trigger] saves[k]).wf()
}

/// A save with the metadata that the text of its metadata file gives.
pub open spec fn with_info_spec(save: SaveView, data: Seq<u8>) -> Result<SaveView, MetadataError> {
    match decode_spec(data) {
        Ok(info) => Ok(SaveView { info: Some(info), ..save }),
        Err(e) => Err(e),
    }
}

/// The view of a result that holds a save.
pub open spec fn save_result_view(r: Result<Save, MetadataError>) -> Result<
    SaveView,
    MetadataError,
> {
    match r {
        Ok(save) => Ok(save@),
        Err(e) => Err(e),
    }
}

impl Save {
    /// A save that was not found has no metadata.
    pub open spec fn wf(&self) -> bool {
        self@.wf()
    }

    /// Decodes `data`, the content of the save's metadata file, and puts
    /// the result into the save.
    pub fn with_decrypted_info(self, data: &[u8]) -> (r: Result<Save, MetadataError>)
        ensures
            save_result_view(r) == with_info_spec(self@, data@),
            self.exists ==> (r matches Ok(save) ==> save.wf()),
    {
        match SaveInfo::decrypt_from(data) {
            Ok(info) => Ok(
                Save {
                    name: self.name,
                    path: self.path,
                    nrp_backup: self.nrp_backup,
                    exists: self.exists,
                    info: Some(info),
                },
            ),
            Err(e) => Err(e),
        }
    }
}

} // verus!
