//! Touches applied to the generated zsh completion script: keep the order of
//! the suggestions, and complete instance names from the configuration.

use vstd::prelude::*;
use crate::text::{
    chars_of, cut_at, find_from, first_at, occurs_at, string_of_range, trim_start, trim_start_index,
};

verus! {

/// The line that turns off the sorting of suggestions.
pub open spec fn sort_style() -> Seq<char> {
    "zstyle ':completion:*:dsc:*' sort false"@
}

/// The line after which shell functions are added.
pub open spec fn autoload_marker() -> Seq<char> {
    "autoload -U is-at-least\n"@
}

/// `s` with `text` put right after the first `marker`, if there is one.
pub open spec fn insert_after(s: Seq<char>, marker: Seq<char>, text: Seq<char>) -> Option<Seq<char>> {
    if exists|i: int| first_at(s, marker, i) {
        let i = choose|i: int| first_at(s, marker, i);
        Some(s.subrange(0, i + marker.len()) + text + s.subrange(i + marker.len(), s.len() as int))
    } else {
        None
    }
}

/// Whether `p` occurs in `s`.
pub open spec fn mentions(s: Seq<char>, p: Seq<char>) -> bool {
    exists|i: int| occurs_at(s, p, i)
}

fn insert_after_exec(v: &Vec<char>, marker: &str, text: &str) -> (r: Option<String>)
    ensures
        match r {
            Some(t) => insert_after(v@, marker@, text@) == Some(t@),
            None => insert_after(v@, marker@, text@) is None,
        },
{
    let m = chars_of(marker);
    match find_from(v, &m, 0) {
        None => {
            assert(forall|k: int| !first_at(v@, marker@, k));
            None
        },
        Some(i) => {
            let ghost ci = choose|k: int| first_at(v@, marker@, k);
            assert(first_at(v@, marker@, i as int));
            assert(ci == i as int) by {
                if ci < i {
                    assert(!occurs_at(v@, marker@, ci));
                } else if ci > i {
                    assert(!occurs_at(v@, marker@, i as int));
                }
            }
            assert(i + m@.len() <= v.len());
            let at = i + m.len();
            let head = string_of_range(v, 0, at);
            let tail = string_of_range(v, at, v.len());
            Some(head.concat(text).concat(tail.as_str()))
        },
    }
}

/// The script with the sort style set: as it is where the style is there
/// already, else with the style on a line of its own after the autoload line,
/// else with the style and an empty line before it all.
pub open spec fn with_sort_style(content: Seq<char>) -> Seq<char> {
    if mentions(content, sort_style()) {
        content
    } else {
        match insert_after(content, autoload_marker(), "\n"@ + sort_style() + "\n"@) {
            Some(t) => t,
            None => sort_style() + "\n\n"@ + content,
        }
    }
}

/// Sets the sort style in the zsh completion script.
pub fn inject_zsh_sort_style(content: String) -> (r: String)
    ensures
        r@ == with_sort_style(content@),
{
    let v = chars_of(content.as_str());
    let style = chars_of("zstyle ':completion:*:dsc:*' sort false");
    if find_from(&v, &style, 0).is_some() {
        return content;
    }
    assert(!mentions(content@, sort_style()));
    let text = String::from_str("\n").concat("zstyle ':completion:*:dsc:*' sort false").concat("\n");
    match insert_after_exec(&v, "autoload -U is-at-least\n", text.as_str()) {
        Some(t) => t,
        None => String::from_str("zstyle ':completion:*:dsc:*' sort false").concat("\n\n").concat(
            content.as_str(),
        ),
    }
}

/// The zsh function that lists the configured instance names.
pub open spec fn names_function() -> Seq<char> {
    "\n_dsc_discourse_names() {\n    local config_path\n    local i\n    for i in {1..$#words}; do\n        if [[ ${words[$i]} == -c || ${words[$i]} == --config ]]; then\n            config_path=${words[$((i+1))]}\n        elif [[ ${words[$i]} == --config=* ]]; then\n            config_path=${words[$i]#--config=}\n        fi\n    done\n\n    local cmd=(dsc list --format plaintext)\n    if [[ -n ${config_path:-} ]]; then\n        cmd+=(-c \"$config_path\")\n    fi\n\n    local -a names\n    names=(${(f)\"$(command ${cmd[@]} 2>/dev/null | sed 's/ - .*//')\"})\n    _describe -t discourses 'discourses' names\n}\n"@
}

fn names_function_text() -> (r: &'static str)
    ensures
        r@ == names_function(),
{
    "\n_dsc_discourse_names() {\n    local config_path\n    local i\n    for i in {1..$#words}; do\n        if [[ ${words[$i]} == -c || ${words[$i]} == --config ]]; then\n            config_path=${words[$((i+1))]}\n        elif [[ ${words[$i]} == --config=* ]]; then\n            config_path=${words[$i]#--config=}\n        fi\n    done\n\n    local cmd=(dsc list --format plaintext)\n    if [[ -n ${config_path:-} ]]; then\n        cmd+=(-c \"$config_path\")\n    fi\n\n    local -a names\n    names=(${(f)\"$(command ${cmd[@]} 2>/dev/null | sed 's/ - .*//')\"})\n    _describe -t discourses 'discourses' names\n}\n"
}

/// The script with the name function added (after the autoload line, else at
/// the start, without its leading line feed) where it is not there yet, then
/// with the update command completing instance names.
pub open spec fn with_name_completion(content: Seq<char>) -> Seq<char> {
    let added = if mentions(content, "_dsc_discourse_names()"@) {
        content
    } else {
        match insert_after(content, autoload_marker(), names_function()) {
            Some(t) => t,
            None => trim_start(names_function()) + content,
        }
    };
    with_update_names(added)
}

/// Adds the completion of instance names to the zsh completion script.
pub fn inject_zsh_dynamic_discourse_completion(content: String) -> (r: String)
    ensures
        r@ == with_name_completion(content@),
{
    let v = chars_of(content.as_str());
    let key = chars_of("_dsc_discourse_names()");
    let added = if find_from(&v, &key, 0).is_some() {
        content
    } else {
        assert(!mentions(content@, "_dsc_discourse_names()"@));
        let function = names_function_text();
        match insert_after_exec(&v, "autoload -U is-at-least\n", function) {
            Some(t) => t,
            None => {
                let f = chars_of(function);
                let a = trim_start_index(&f);
                string_of_range(&f, a, f.len()).concat(content.as_str())
            },
        }
    };
    replace_update_name_completion(added)
}

/// The script with the first name placeholder after the first update
/// section replaced by the name function; as it is where either is missing.
pub open spec fn with_update_names(s: Seq<char>) -> Seq<char> {
    let marker = "(update)\n_arguments"@;
    let placeholder = "':name:_default'"@;
    if exists|i: int| first_at(s, marker, i) {
        let i = choose|i: int| first_at(s, marker, i);
        let j = choose|j: int| #[trigger] cut_at(s, placeholder, i + marker.len(), j);
        if j < s.len() {
            s.subrange(0, j) + "':name:_dsc_discourse_names'"@ + s.subrange(
                j + placeholder.len(),
                s.len() as int,
            )
        } else {
            s
        }
    } else {
        s
    }
}

/// Makes the update command complete instance names.
pub fn replace_update_name_completion(content: String) -> (r: String)
    ensures
        r@ == with_update_names(content@),
{
    proof {
        reveal_strlit("':name:_default'");
    }
    let v = chars_of(content.as_str());
    let marker = chars_of("(update)\n_arguments");
    let placeholder = chars_of("':name:_default'");
    let i = match find_from(&v, &marker, 0) {
        None => {
            assert(forall|k: int| !first_at(content@, "(update)\n_arguments"@, k));
            return content;
        },
        Some(i) => i,
    };
    let ghost ci = choose|k: int| first_at(content@, "(update)\n_arguments"@, k);
    assert(first_at(content@, "(update)\n_arguments"@, i as int));
    assert(ci == i as int) by {
        if ci < i {
            assert(!occurs_at(content@, "(update)\n_arguments"@, ci));
        } else if ci > i {
            assert(!occurs_at(content@, "(update)\n_arguments"@, i as int));
        }
    }
    assert(i + marker@.len() <= v.len());
    let from = i + marker.len();
    let j = match find_from(&v, &placeholder, from) {
        Some(j) => j,
        None => v.len(),
    };
    assert(cut_at(content@, "':name:_default'"@, from as int, j as int));
    let ghost cj = choose|k: int| #[trigger] cut_at(content@, "':name:_default'"@, from as int, k);
    assert(cj == j as int) by {
        if cj < j {
            assert(!occurs_at(content@, "':name:_default'"@, cj));
        } else if cj > j {
            assert(!occurs_at(content@, "':name:_default'"@, j as int));
        }
    }
    if j >= v.len() {
        return content;
    }
    assert(j + placeholder@.len() <= v.len());
    let head = string_of_range(&v, 0, j);
    let tail = string_of_range(&v, j + placeholder.len(), v.len());
    head.concat("':name:_dsc_discourse_names'").concat(tail.as_str())
}

} // verus!
