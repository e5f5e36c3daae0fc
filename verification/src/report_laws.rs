//! How the lines of a search are made up, and which of them are reported.

use crate::search::{
    error_line, key_failure, key_line, matches_terms, reports_value, shown_name, subkey_errors,
    subkey_failure, subkey_path, subkey_paths, value_errors, value_failure, value_line,
    value_results, RegistryValue,
};
use crate::text::{lowercase, occurs_in};
use vstd::prelude::*;
use vstd::string::*;

verus! {

/// The line of a key is the name of the searched root key, one backslash, and
/// the whole path.
pub proof fn law_key_lines_hold_the_path(path: Seq<char>)
    ensures
        key_line(path).len() == 19 + path.len(),
        key_line(path).subrange(0, 18) == "HKEY_LOCAL_MACHINE"@,
        key_line(path)[18] == '\\',
        key_line(path).skip(19) == path,
{
    reveal_strlit("HKEY_LOCAL_MACHINE\\");
    reveal_strlit("HKEY_LOCAL_MACHINE");
    assert(key_line(path).subrange(0, 18) =~= "HKEY_LOCAL_MACHINE"@);
    assert(key_line(path).skip(19) =~= path);
}

/// Keys at different paths are reported by different lines.
pub proof fn law_key_lines_tell_paths_apart(a: Seq<char>, b: Seq<char>)
    requires
        key_line(a) == key_line(b),
    ensures
        a == b,
{
    law_key_lines_hold_the_path(a);
    law_key_lines_hold_the_path(b);
}

/// The path of a subkey is the path of the key, just one backslash, and the
/// whole name of the subkey.
pub proof fn law_a_backslash_joins_key_and_subkey(path: Seq<char>, name: Seq<char>)
    ensures
        subkey_path(path, name).len() == path.len() + 1 + name.len(),
        subkey_path(path, name).take(path.len() as int) == path,
        subkey_path(path, name)[path.len() as int] == '\\',
        subkey_path(path, name).skip(path.len() as int + 1) == name,
{
    reveal_strlit("\\");
    assert(subkey_path(path, name).take(path.len() as int) =~= path);
    assert(subkey_path(path, name).skip(path.len() as int + 1) =~= name);
}

/// Different subkeys of a key have different paths.
pub proof fn law_subkeys_have_paths_of_their_own(path: Seq<char>, a: Seq<char>, b: Seq<char>)
    requires
        subkey_path(path, a) == subkey_path(path, b),
    ensures
        a == b,
{
    law_a_backslash_joins_key_and_subkey(path, a);
    law_a_backslash_joins_key_and_subkey(path, b);
}

/// A value is shown under its name, and one without a name as `(Default)`.
pub proof fn law_values_are_shown_under_their_names(name: Seq<char>)
    ensures
        name.len() > 0 ==> shown_name(name) == name,
        name.len() == 0 ==> shown_name(name) == "(Default)"@,
{
}

/// The line of a value is made up of the name of the searched root key, a
/// backslash, the whole path, a backslash, the shown name, ` = "`, all of the
/// data, `" (`, the name of the type, and `)`.
pub proof fn law_value_lines_hold_everything(path: Seq<char>, value: RegistryValue)
    ensures
        ({
            let line = value_line(path, value);
            let name = if value.name@.len() == 0 {
                "(Default)"@
            } else {
                value.name@
            };
            let name_start = 20 + path.len() as int;
            let data_start = name_start + name.len() + 4;
            let kind_start = data_start + value.data@.len() + 3;
            &&& line.len() == kind_start + value.kind@.len() + 1
            &&& line.subrange(0, 18) == "HKEY_LOCAL_MACHINE"@
            &&& line[18] == '\\'
            &&& line.subrange(19, name_start - 1) == path
            &&& line[name_start - 1] == '\\'
            &&& line.subrange(name_start, data_start - 4) == name
            &&& line[data_start - 4] == ' '
            &&& line[data_start - 3] == '='
            &&& line[data_start - 2] == ' '
            &&& line[data_start - 1] == '"'
            &&& line.subrange(data_start, kind_start - 3) == value.data@
            &&& line[kind_start - 3] == '"'
            &&& line[kind_start - 2] == ' '
            &&& line[kind_start - 1] == '('
            &&& line.subrange(kind_start, kind_start + value.kind@.len()) == value.kind@
            &&& line.last() == ')'
        }),
{
    reveal_strlit("HKEY_LOCAL_MACHINE\\");
    reveal_strlit("HKEY_LOCAL_MACHINE");
    reveal_strlit("\\");
    reveal_strlit(" = \"");
    reveal_strlit("\" (");
    reveal_strlit(")");
    let line = value_line(path, value);
    let name = if value.name@.len() == 0 {
        "(Default)"@
    } else {
        value.name@
    };
    let name_start = 20 + path.len() as int;
    let data_start = name_start + name.len() + 4;
    let kind_start = data_start + value.data@.len() + 3;
    assert(line.subrange(0, 18) =~= "HKEY_LOCAL_MACHINE"@);
    assert(line.subrange(19, name_start - 1) =~= path);
    assert(line.subrange(name_start, data_start - 4) =~= name);
    assert(line.subrange(data_start, kind_start - 3) =~= value.data@);
    assert(line.subrange(kind_start, kind_start + value.kind@.len()) =~= value.kind@);
}

/// Two values of a key that have the same name and type but different data are
/// reported by different lines.
pub proof fn law_value_lines_tell_data_apart(path: Seq<char>, a: RegistryValue, b: RegistryValue)
    requires
        a.name@ == b.name@,
        a.kind@ == b.kind@,
        value_line(path, a) == value_line(path, b),
    ensures
        a.data@ == b.data@,
{
    law_value_lines_hold_everything(path, a);
    law_value_lines_hold_everything(path, b);
}

/// Whether `line` is `path`, then `what`, then `message`, then a quotation mark.
pub open spec fn is_failure_line(
    line: Seq<char>,
    path: Seq<char>,
    what: Seq<char>,
    message: Seq<char>,
) -> bool {
    &&& line.len() == path.len() + what.len() + message.len() + 1
    &&& line.take(path.len() as int) == path
    &&& line.subrange(path.len() as int, path.len() as int + what.len()) == what
    &&& line.subrange(path.len() as int + what.len(), line.len() - 1) == message
    &&& line.last() == '"'
}

/// The line of a failure holds the whole path, what failed, and the whole
/// message in quotation marks.
pub proof fn law_failure_lines_hold_everything(path: Seq<char>, message: Seq<char>)
    ensures
        is_failure_line(
            error_line(path, subkey_failure(), message),
            path,
            ", Subkey error: \""@,
            message,
        ),
        is_failure_line(
            error_line(path, value_failure(), message),
            path,
            ", Value error: \""@,
            message,
        ),
        is_failure_line(
            error_line(path, key_failure(), message),
            path,
            ", Key error: \""@,
            message,
        ),
{
    lemma_failure_line(path, ", Subkey error: \""@, message);
    lemma_failure_line(path, ", Value error: \""@, message);
    lemma_failure_line(path, ", Key error: \""@, message);
}

proof fn lemma_failure_line(path: Seq<char>, what: Seq<char>, message: Seq<char>)
    ensures
        is_failure_line(error_line(path, what, message), path, what, message),
{
    reveal_strlit("\"");
    let line = error_line(path, what, message);
    assert(line.take(path.len() as int) =~= path);
    assert(line.subrange(path.len() as int, path.len() as int + what.len()) =~= what);
    assert(line.subrange(path.len() as int + what.len(), line.len() - 1) =~= message);
}

/// A subkey that could be listed gives its path and nothing else; one that could
/// not gives none.
pub proof fn law_a_subkey_gives_one_path(path: Seq<char>, name: String, message: String)
    ensures
        subkey_paths(path, seq![Ok::<String, String>(name)]) == seq![subkey_path(path, name@)],
        subkey_paths(path, seq![Err::<String, String>(message)]) == Seq::<Seq<char>>::empty(),
        subkey_paths(path, Seq::empty()) == Seq::<Seq<char>>::empty(),
{
    let listed = seq![Ok::<String, String>(name)];
    let lost = seq![Err::<String, String>(message)];
    reveal_with_fuel(Seq::filter_map, 2);
    assert(listed.drop_last() =~= Seq::<Result<String, String>>::empty());
    assert(lost.drop_last() =~= Seq::<Result<String, String>>::empty());
    assert(subkey_paths(path, listed) =~= seq![subkey_path(path, name@)]);
}

/// The paths of two lists of subkeys follow each other for both together.
pub proof fn law_paths_of_subkeys_follow_each_other(
    path: Seq<char>,
    first: Seq<Result<String, String>>,
    second: Seq<Result<String, String>>,
)
    ensures
        subkey_paths(path, first + second) == subkey_paths(path, first) + subkey_paths(
            path,
            second,
        ),
    decreases second.len(),
{
    if second.len() == 0 {
        assert(first + second =~= first);
        assert(subkey_paths(path, first) + subkey_paths(path, second) =~= subkey_paths(
            path,
            first,
        ));
    } else {
        law_paths_of_subkeys_follow_each_other(path, first, second.drop_last());
        assert((first + second).drop_last() =~= first + second.drop_last());
        assert(subkey_paths(path, first + second) =~= subkey_paths(path, first) + subkey_paths(
            path,
            second,
        ));
    }
}

/// Each subkey that could not be listed is reported with its message, and no
/// other.
pub proof fn law_unlisted_subkeys_are_reported(
    path: Seq<char>,
    subkeys: Seq<Result<String, String>>,
    line: Seq<char>,
)
    ensures
        subkey_errors(path, subkeys).contains(line) <==> exists|i: int|
            0 <= i < subkeys.len() && (#[trigger] subkeys[i] matches Err(message) && line == path
                + ", Subkey error: \""@ + message@ + "\""@),
{
}

/// Each value that could not be read is reported with its message, and no other.
pub proof fn law_unread_values_are_reported(
    path: Seq<char>,
    values: Seq<Result<RegistryValue, String>>,
    line: Seq<char>,
)
    ensures
        value_errors(path, values).contains(line) <==> exists|i: int|
            0 <= i < values.len() && (#[trigger] values[i] matches Err(message) && line == path
                + ", Value error: \""@ + message@ + "\""@),
{
}

/// Whether some term stands in the lower case form of the name or of the data.
pub open spec fn holds_a_term(terms: Seq<Seq<char>>, value: RegistryValue) -> bool {
    exists|k: int|
        0 <= k < terms.len() && (occurs_in(#[trigger] terms[k], lowercase(value.name@))
            || occurs_in(terms[k], lowercase(value.data@)))
}

/// Each value that was read and whose name or data holds a search term is
/// reported, and no other.
pub proof fn law_matching_values_are_reported(
    terms: Seq<Seq<char>>,
    path: Seq<char>,
    values: Seq<Result<RegistryValue, String>>,
    line: Seq<char>,
)
    ensures
        value_results(terms, path, values).contains(line) <==> exists|i: int|
            0 <= i < values.len() && (#[trigger] values[i] matches Ok(value) && holds_a_term(
                terms,
                value,
            ) && line == value_line(path, value)),
{
    if value_results(terms, path, values).contains(line) {
        let i = choose|i: int|
            0 <= i < values.len() && reports_value(
                terms,
                path,
                #[trigger] values[i],
                line,
            );
        assert(holds_a_term(terms, values[i]->Ok_0));
    }
    if exists|i: int|
        0 <= i < values.len() && (#[trigger] values[i] matches Ok(value) && holds_a_term(
            terms,
            value,
        ) && line == value_line(path, value)) {
        let i = choose|i: int|
            0 <= i < values.len() && (#[trigger] values[i] matches Ok(value) && holds_a_term(
                terms,
                value,
            ) && line == value_line(path, value));
        let value = values[i]->Ok_0;
        assert(matches_terms(terms, value.name@) || matches_terms(
            terms,
            value.data@,
        ));
        assert(reports_value(terms, path, values[i], line));
    }
}

} // verus!
