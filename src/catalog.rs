use vstd::prelude::*;

verus! {

/// A file attached to a structure.
pub struct File {
    pub url: String,
    pub created: i64,
}

/// A creator as shown beside a structure.
pub struct UserPreview {
    pub id: String,
    pub name: String,
    pub avatar: String,
}

/// A structure with its files, images and creators.
pub struct Structure {
    pub id: String,
    pub name: String,
    pub files: Vec<File>,
    pub images: Vec<File>,
    pub summary: String,
    pub description: String,
    pub creators: Vec<UserPreview>,
    pub created: i64,
}

/// A structure as listed: its first image and its first creator.
pub struct StructurePreview {
    pub id: String,
    pub name: String,
    pub image: String,
    pub creator: String,
}

impl Structure {
    /// The listing entry of this structure.
    pub fn to_preview(&self) -> (r: StructurePreview)
        requires
            self.images@.len() > 0,
            self.creators@.len() > 0,
        ensures
            r.id == self.id,
            r.name == self.name,
            r.image == self.images@[0].url,
            r.creator == self.creators@[0].name,
    {
        StructurePreview {
            id: self.id.clone(),
            name: self.name.clone(),
            image: self.images[0].url.clone(),
            creator: self.creators[0].name.clone(),
        }
    }
}

impl StructurePreview {
    /// The listing entry of `structure`.
    pub fn from_structure(structure: Structure) -> (r: StructurePreview)
        requires
            structure.images@.len() > 0,
            structure.creators@.len() > 0,
        ensures
            r.id == structure.id,
            r.name == structure.name,
            r.image == structure.images@[0].url,
            r.creator == structure.creators@[0].name,
    {
        structure.to_preview()
    }
}

} // verus!
