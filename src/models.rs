use vstd::prelude::*;
use crate::codec::{StructureID, UserID};
use crate::listing::Pagination;
use crate::validate::UserError;

verus! {

/// A user's public profile.
pub struct User {
    pub id: UserID,
    pub name: String,
    pub avatar: Option<String>,
    pub slug: Option<String>,
    pub bio: Option<String>,
}

/// A user as shown beside a structure.
pub struct UserPreview {
    pub name: String,
    pub avatar: Option<String>,
    pub slug: Option<String>,
}

/// Body of a registration request.
pub struct UserRegister {
    pub name: Option<String>,
    pub password: Option<String>,
}

/// Body of a login request.
pub struct UserLogin {
    pub name: Option<String>,
    pub password: Option<String>,
    pub remember: Option<bool>,
}

/// Answer to a successful login.
pub struct LoginResponse {
    pub id: UserID,
}

/// Answer to a refused registration or login.
pub struct RegisterErrorResponse {
    pub reason: UserError,
}

/// Answer carrying one user.
pub struct UserResponse {
    pub user: User,
}

/// Answer carrying a user's name.
pub struct UserNameResponse {
    pub name: String,
}

/// A structure as listed.
pub struct StructurePreview {
    pub id: StructureID,
    pub name: String,
    pub image: Option<String>,
    pub creator: Option<String>,
}

/// One page of the structure listing.
pub struct StructuresResponse {
    pub structures: Vec<StructurePreview>,
    pub pagination: Pagination,
}

} // verus!
