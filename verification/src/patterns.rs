//! The three regular expressions of the crate, each compiled with the
//! `regex` crate's `Regex::new` and applied once. Each pattern is fixed, so
//! what its one operation gives is stated in a few lines.
use vstd::prelude::*;
use crate::text::{has_suffix, strs};

verus! {

/// The field codes (`%f`, `%U`, ...) of a desktop entry's `Exec` value.
pub const FIELD_CODE_PATTERN: &'static str = "%[fFuiUdDnNvmks]";

/// A quoted item of a GVariant string array; group 1 is its text.
pub const QUOTED_ITEM_PATTERN: &'static str = "'([^']*)'";

/// An image extension at the end of an icon name.
pub const ICON_EXTENSION_PATTERN: &'static str = "\\.(png|svg|xpm|jpg|jpeg|gif|ico)$";

/// A letter that makes a field code after `%`.
pub open spec fn is_field_code_letter(c: char) -> bool {
    c == 'f' || c == 'F' || c == 'u' || c == 'i' || c == 'U' || c == 'd' || c == 'D' || c == 'n' || c
        == 'N' || c == 'v' || c == 'm' || c == 'k' || c == 's'
}

/// `s` with its field codes removed: scanning from the left, each `%`
/// directly followed by a field-code letter is dropped with that letter.
pub open spec fn without_field_codes(s: Seq<char>) -> Seq<char>
    decreases s.len(),
{
    if s.len() == 0 {
        s
    } else if s.len() >= 2 && s[0] == '%' && is_field_code_letter(s[1]) {
        without_field_codes(s.skip(2))
    } else {
        seq![s[0]] + without_field_codes(s.skip(1))
    }
}

/// `Regex::new(FIELD_CODE_PATTERN)` and `Regex::replace_all` with the empty
/// replacement: every non-overlapping match, leftmost first, removed. The
/// pattern is valid, so compiling succeeds.
#[verifier::external_body]
pub(crate) fn remove_field_codes(exec: &str) -> (r: String)
    ensures
        r@ == without_field_codes(exec@),
{
    match regex::Regex::new(FIELD_CODE_PATTERN) {
        Ok(re) => re.replace_all(exec, "").into_owned(),
        Err(_) => exec.to_string(),
    }
}

/// The position of the first single quote in `s`.
pub open spec fn first_quote(s: Seq<char>) -> Option<int>
    decreases s.len(),
{
    if s.len() == 0 {
        None
    } else if s[0] == '\'' {
        Some(0)
    } else {
        match first_quote(s.skip(1)) {
            Some(i) => Some(i + 1),
            None => None,
        }
    }
}

pub proof fn lemma_first_quote(s: Seq<char>)
    ensures
        first_quote(s) matches Some(i) ==> 0 <= i < s.len() && s[i] == '\'' && forall|k: int|
            0 <= k < i ==> s[k] != '\'',
        first_quote(s) is None ==> forall|k: int| 0 <= k < s.len() ==> s[k] != '\'',
    decreases s.len(),
{
    if s.len() > 0 && s[0] != '\'' {
        lemma_first_quote(s.skip(1));
        assert forall|k: int| 1 <= k < s.len() implies s[k] == s.skip(1)[k - 1] by {}
    }
}

/// The texts between successive pairs of single quotes in `s`, from the
/// left: each pair is a quote and the next quote after it; a last quote
/// without a partner gives nothing.
pub open spec fn quoted_texts(s: Seq<char>) -> Seq<Seq<char>>
    decreases s.len(),
{
    match first_quote(s) {
        None => Seq::empty(),
        Some(i) => {
            proof {
                lemma_first_quote(s);
            }
            let rest = s.skip(i + 1);
            proof {
                lemma_first_quote(rest);
            }
            match first_quote(rest) {
                None => Seq::empty(),
                Some(j) => seq![rest.take(j)] + quoted_texts(rest.skip(j + 1)),
            }
        },
    }
}

/// `Regex::new(QUOTED_ITEM_PATTERN)` and `Regex::captures_iter`, taking group
/// 1 of each match: the text of each non-overlapping quoted item, leftmost
/// first. The pattern is valid, so compiling succeeds, and group 1 takes part
/// in every match.
#[verifier::external_body]
pub(crate) fn quoted_items_of(raw: &str) -> (r: Vec<String>)
    ensures
        strs(r@) == quoted_texts(raw@),
{
    match regex::Regex::new(QUOTED_ITEM_PATTERN) {
        Ok(re) => re.captures_iter(raw).map(|c| c[1].to_string()).collect(),
        Err(_) => Vec::new(),
    }
}

/// `s` without a trailing image extension (`.png`, `.svg`, `.xpm`, `.jpg`,
/// `.jpeg`, `.gif` or `.ico`, in this case), as the pattern's one possible
/// match at the end removes it.
pub open spec fn without_image_extension(s: Seq<char>) -> Seq<char> {
    if has_suffix(s, ".png"@) || has_suffix(s, ".svg"@) || has_suffix(s, ".xpm"@) || has_suffix(s, ".jpg"@)
        || has_suffix(s, ".gif"@) || has_suffix(s, ".ico"@) {
        s.take(s.len() - 4)
    } else if has_suffix(s, ".jpeg"@) {
        s.take(s.len() - 5)
    } else {
        s
    }
}

/// `Regex::new(ICON_EXTENSION_PATTERN)` and `Regex::replace` with the empty
/// replacement: the first match removed. `$` matches only at the end of the
/// text, so the one match is a trailing extension. The pattern is valid, so
/// compiling succeeds.
#[verifier::external_body]
pub(crate) fn remove_image_extension(raw: &str) -> (r: String)
    ensures
        r@ == without_image_extension(raw@),
{
    match regex::Regex::new(ICON_EXTENSION_PATTERN) {
        Ok(re) => re.replace(raw, "").into_owned(),
        Err(_) => raw.to_string(),
    }
}

} // verus!
