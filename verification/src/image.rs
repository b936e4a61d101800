//! Naming of externally stored image assets: the allow-list of image types
//! and the relative storage name for a new asset. Writing the bytes to disk
//! is the asset store's job, not this module's.

use vstd::prelude::*;
use vstd::string::StringExecFns;

use crate::error::{AppError, AppResult};

verus! {

broadcast use vstd::string::group_string_axioms;

/// The image types the asset store accepts.
pub open spec fn valid_image_type(t: Seq<char>) -> bool {
    ||| t == "png"@
    ||| t == "jpg"@
    ||| t == "jpeg"@
    ||| t == "gif"@
}

/// Relies on uuid's `Uuid::new_v4` and its `Display` form: a freshly drawn
/// random UUID rendered hyphenated, which is always 36 ASCII characters.
/// Nothing more is promised of the value: it is random.
#[verifier::external_body]
fn fresh_uuid() -> (r: String)
    ensures
        r@.len() == 36,
{
    uuid::Uuid::new_v4().to_string()
}

/// Picks the storage name for a new image asset: `images/<uuid>.<type>`,
/// after checking the declared type against the allow-list. A name is
/// returned exactly for allowed types; anything else is invalid input.
pub fn image_asset_name(image_type: &String) -> (r: AppResult<String>)
    ensures
        r is Ok <==> valid_image_type(image_type@),
        r matches Ok(name) ==> {
            &&& name@.len() == 44 + image_type@.len()
            &&& name@.subrange(0, 7) == "images/"@
            &&& name@[43] == '.'
            &&& name@.subrange(44, name@.len() as int) == image_type@
        },
        r matches Err(e) ==> e is InvalidInput,
{
    let png = "png".to_string();
    let jpg = "jpg".to_string();
    let jpeg = "jpeg".to_string();
    let gif = "gif".to_string();
    let valid = *image_type == png || *image_type == jpg || *image_type == jpeg
        || *image_type == gif;
    if !valid {
        return AppError::new("invalid image type, must be one of: png, jpg, jpeg, gif");
    }
    let uuid = fresh_uuid();
    let mut name = "images/".to_string();
    name.append(uuid.as_str());
    name.append(".");
    name.append(image_type.as_str());
    proof {
        reveal_strlit("images/");
        reveal_strlit(".");
        assert(name@.subrange(0, 7) =~= "images/"@);
        assert(name@[43] == '.');
        assert(name@.subrange(44, name@.len() as int) =~= image_type@);
    }
    Ok(name)
}

} // verus!
