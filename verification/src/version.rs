//! Version tokens embedded in artifact file names.
//!
//! An artifact is named `<product>-<...>-<...>-<token><extension>`: the token
//! is the fourth `-`-separated field, less the platform extension.

use vstd::prelude::*;
use crate::error::UpdateError;
use crate::text::{
    join, lemma_split_join, lemma_split_len, nth_field, occurrences, split, strip_suffix,
    without_suffix,
};

verus! {

/// The extension that marks an artifact for this platform.
pub const PLATFORM_SUFFIX: &'static str = ".AppImage";

/// The character that separates the fields of an artifact name.
pub const FIELD_DELIMITER: char = '-';

/// The zero-based position of the field that holds the version token.
pub const VERSION_FIELD: usize = 3;

/// The version token of an artifact name: field `VERSION_FIELD` without the
/// platform extension, or `None` if the name has too few fields.
pub open spec fn version_of(name: Seq<char>) -> Option<Seq<char>> {
    let fields = split(name, FIELD_DELIMITER);
    if VERSION_FIELD < fields.len() {
        Some(without_suffix(fields[VERSION_FIELD as int], PLATFORM_SUFFIX@))
    } else {
        None
    }
}

/// Extracts the version token from an artifact file name.
///
/// Fails with `MalformedFilename` exactly when the name has fewer than four
/// `-`-separated fields. No other validation is performed: a field that does
/// not end in the platform extension is returned whole.
pub fn extract_version(name: &str) -> (token: Result<String, UpdateError>)
    ensures
        match token {
            Ok(t) => version_of(name@) == Some(t@),
            Err(e) => e == UpdateError::MalformedFilename && version_of(name@) is None,
        },
{
    match nth_field(name, FIELD_DELIMITER, VERSION_FIELD) {
        Some(field) => Ok(strip_suffix(field, PLATFORM_SUFFIX).to_owned()),
        None => Err(UpdateError::MalformedFilename),
    }
}

/// A name holds a version token exactly when `-` occurs in it at least three
/// times.
pub proof fn lemma_version_needs_four_fields(name: Seq<char>)
    ensures
        version_of(name) is Some <==> occurrences(name, FIELD_DELIMITER) >= VERSION_FIELD,
{
    lemma_split_len(name, FIELD_DELIMITER);
}

/// The name of an artifact: product, platform, toolchain and the version
/// token with the platform extension, joined by `-`.
pub open spec fn artifact_name(
    product: Seq<char>,
    platform: Seq<char>,
    toolchain: Seq<char>,
    token: Seq<char>,
) -> Seq<char> {
    join(seq![product, platform, toolchain, token + PLATFORM_SUFFIX@], FIELD_DELIMITER)
}

/// From a name built by `artifact_name` out of parts free of `-`, the token
/// is read back unchanged.
pub proof fn lemma_version_of_artifact_name(
    product: Seq<char>,
    platform: Seq<char>,
    toolchain: Seq<char>,
    token: Seq<char>,
)
    requires
        !product.contains(FIELD_DELIMITER),
        !platform.contains(FIELD_DELIMITER),
        !toolchain.contains(FIELD_DELIMITER),
        !token.contains(FIELD_DELIMITER),
    ensures
        version_of(artifact_name(product, platform, toolchain, token)) == Some(token),
{
    reveal_strlit(".AppImage");
    let last = token + PLATFORM_SUFFIX@;
    let fields = seq![product, platform, toolchain, last];
    assert forall|i: int| 0 <= i < last.len() implies last[i] != FIELD_DELIMITER by {
        if i < token.len() {
            assert(token.contains(last[i]));
        }
    }
    lemma_split_join(fields, FIELD_DELIMITER);
    assert(PLATFORM_SUFFIX@.is_suffix_of(last)) by {
        assert(last.subrange(last.len() - PLATFORM_SUFFIX@.len(), last.len() as int)
            =~= PLATFORM_SUFFIX@);
    }
}

} // verus!
