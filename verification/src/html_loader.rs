//! Templates: text files in which `[ name ]` stands for a value.

use vstd::prelude::*;
use vstd::utf8::{decode_utf8, valid_utf8};
use crate::bindings::string_from_utf8;
use crate::string_map::StringMap;
use crate::text::{extend, from_chars, replace, replace_all, to_chars};

verus! {

/// The token that stands for the value of `name` in a template.
pub open spec fn placeholder(name: Seq<char>) -> Seq<char> {
    "[ "@ + name + " ]"@
}

/// The text `file` after the values of `names` have been put in, one name
/// after the other: each occurrence of the name's token becomes the name's
/// value.
pub open spec fn filled(
    file: Seq<char>,
    names: Seq<Seq<char>>,
    values: Map<Seq<char>, String>,
) -> Seq<char>
    decreases names.len(),
{
    if names.len() == 0 {
        file
    } else {
        replace(
            filled(file, names.drop_last(), values),
            placeholder(names.last()),
            values[names.last()]@,
        )
    }
}

/// Turns the content of a template file into text.
pub struct FileLoader;

impl FileLoader {
    /// The text of a template, given the bytes of its file; nothing where
    /// the bytes are not valid UTF-8.
    pub fn load_template(contents: Vec<u8>) -> (r: Option<String>)
        ensures
            r is Some <==> valid_utf8(contents@),
            r matches Some(text) ==> text@ == decode_utf8(contents@),
    {
        match string_from_utf8(contents) {
            Ok(text) => Some(text),
            Err(_) => None,
        }
    }
}

/// Fills templates with values.
pub struct HtmlConstructor;

impl HtmlConstructor {
    /// The page made of a template, given the bytes of its file, and the
    /// values for its tokens; nothing where the bytes are not valid UTF-8.
    pub fn construct_page(contents: Vec<u8>, vars: &StringMap<String>) -> (r: Option<String>)
        ensures
            r is Some <==> valid_utf8(contents@),
            r matches Some(page) ==> page@ == filled(decode_utf8(contents@), vars.keys(), vars@),
    {
        match FileLoader::load_template(contents) {
            Some(file) => Some(HtmlConstructor::set_dynamic_vars(file, vars)),
            None => None,
        }
    }

    /// Puts the values of `vars` in place of their tokens in `file`, name
    /// by name in the order in which the names were first given.
    pub fn set_dynamic_vars(file: String, vars: &StringMap<String>) -> (r: String)
        ensures
            r@ == filled(file@, vars.keys(), vars@),
    {
        proof {
            reveal_strlit("[ ");
        }
        let mut page = to_chars(file.as_str());
        let n = vars.len();
        let mut i: usize = 0;
        assert(vars.keys().take(0) =~= Seq::<Seq<char>>::empty());
        while i < n
            invariant
                i <= n,
                n == vars.keys().len(),
                "[ "@.len() == 2,
                page@ == filled(file@, vars.keys().take(i as int), vars@),
            decreases n - i,
        {
            let mut token = to_chars("[ ");
            extend(&mut token, to_chars(vars.key_at(i).as_str()).as_slice());
            extend(&mut token, to_chars(" ]").as_slice());
            let value = to_chars(vars.value_at(i).as_str());
            proof {
                assert(vars.keys().take(i + 1).drop_last() =~= vars.keys().take(i as int));
                assert(vars.keys().take(i + 1).last() == vars.keys()[i as int]);
            }
            page = replace_all(page.as_slice(), token.as_slice(), value.as_slice());
            i += 1;
        }
        assert(vars.keys().take(i as int) =~= vars.keys());
        from_chars(page.as_slice())
    }
}

} // verus!
