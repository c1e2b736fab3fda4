//! The names of the files that are written.

use crate::text::{
    chars_of, concat2, concat3, control_char, decimal, lemma_decimal_injective, lemma_decimal_last,
    optional_str, push_decimal, text_of, texts,
};
use vstd::hash_set::StringHashSet;
use vstd::prelude::*;
use vstd::string::*;

verus! {

// ---------------------------------------------------------------------------
// Descriptors
// ---------------------------------------------------------------------------

/// The file names that are taken.
pub struct FileNames {
    taken: StringHashSet,
}

/// The name of a descriptor's file: plain for the number zero, else with the
/// number in it.
pub open spec fn numbered(name: Seq<char>, number: nat) -> Seq<char> {
    if number == 0 {
        name + ".json"@
    } else {
        name + "."@ + decimal(number) + ".json"@
    }
}

/// Whether a number is the first under which the name is free.
pub open spec fn is_first_free(taken: Set<Seq<char>>, name: Seq<char>, number: nat) -> bool {
    &&& !taken.contains(numbered(name, number))
    &&& forall|earlier: nat|
        earlier < number ==> taken.contains(#[trigger] numbered(name, earlier))
}

impl View for FileNames {
    type V = Set<Seq<char>>;

    closed spec fn view(&self) -> Set<Seq<char>> {
        self.taken@
    }
}

/// Different numbers give different names.
proof fn lemma_numbered_injective(name: Seq<char>, a: nat, b: nat)
    requires
        numbered(name, a) == numbered(name, b),
    ensures
        a == b,
{
    reveal_strlit(".");
    reveal_strlit(".json");
    if a == 0 || b == 0 {
        lemma_decimal_last(a);
        lemma_decimal_last(b);
        assert((name + ".json"@).len() == name.len() + 5);
        if a > 0 {
            assert(numbered(name, a).len() == name.len() + 1 + decimal(a).len() + 5);
        }
        if b > 0 {
            assert(numbered(name, b).len() == name.len() + 1 + decimal(b).len() + 5);
        }
    } else {
        let start = name.len() + 1;
        let end = numbered(name, a).len() - 5;
        assert(numbered(name, a).subrange(start as int, end) =~= decimal(a));
        assert(numbered(name, b).subrange(start as int, end) =~= decimal(b));
        lemma_decimal_injective(a, b);
    }
}

/// As many names as are taken in a row fit into the set of the taken names.
proof fn lemma_taken_in_a_row(taken: Set<Seq<char>>, name: Seq<char>, count: nat)
    requires
        taken.finite(),
        forall|number: nat| number < count ==> taken.contains(#[trigger] numbered(name, number)),
    ensures
        count <= taken.len(),
{
    let numbers = vstd::set_lib::set_int_range(0, count as int);
    let f = |number: int| numbered(name, number as nat);
    let row = numbers.map(f);
    vstd::set_lib::lemma_int_range(0, count as int);
    assert(vstd::relations::injective_on(f, numbers)) by {
        assert forall|a: int, b: int|
            numbers.contains(a) && numbers.contains(b) && #[trigger] f(a) == #[trigger] f(
                b,
            ) implies a == b by {
            lemma_numbered_injective(name, a as nat, b as nat);
        }
    }
    vstd::set_lib::lemma_map_size(numbers, row, f);
    assert(row.subset_of(taken));
    vstd::set_lib::lemma_len_subset(row, taken);
}

impl FileNames {
    /// There are only so many names.
    pub closed spec fn wf(&self) -> bool {
        self.taken@.finite()
    }

    /// No name is taken yet.
    pub fn new() -> (names: FileNames)
        ensures
            names.wf(),
            names@ == Set::<Seq<char>>::empty(),
    {
        FileNames { taken: StringHashSet::new() }
    }

    /// Takes the first free name for the file of a descriptor.
    pub fn claim(&mut self, name: &str) -> (file_name: String)
        requires
            old(self).wf(),
        ensures
            final(self).wf(),
            exists|number: nat|
                is_first_free(old(self)@, name@, number) && file_name@ == #[trigger] numbered(
                    name@,
                    number,
                ),
            final(self)@ == old(self)@.insert(file_name@),
    {
        let limit = self.taken.len();
        let ghost taken = self.taken@;
        let mut number: u64 = 0;
        let mut file_name = concat2(name, ".json");
        proof {
            assert(file_name@ =~= numbered(name@, 0));
        }
        while self.taken.contains(file_name.as_str())
            invariant
                self.taken@ == taken,
                taken.finite(),
                limit == taken.len(),
                number <= limit,
                file_name@ == numbered(name@, number as nat),
                forall|earlier: nat|
                    earlier < number ==> taken.contains(#[trigger] numbered(name@, earlier)),
            decreases limit - number,
        {
            proof {
                lemma_taken_in_a_row(taken, name@, number as nat + 1);
            }
            number = number + 1;
            file_name = concat2(name, ".");
            push_decimal(&mut file_name, number);
            file_name.append(".json");
            proof {
                assert(file_name@ =~= numbered(name@, number as nat));
            }
        }
        proof {
            assert(is_first_free(taken, name@, number as nat));
        }
        self.taken.insert(file_name.clone());
        file_name
    }
}

/// A name that was claimed is never handed out again: names claimed one after the
/// other differ, also where they were claimed for the same descriptor.
pub proof fn law_claimed_names_differ(
    taken: Set<Seq<char>>,
    first: Seq<char>,
    first_number: nat,
    later: Set<Seq<char>>,
    second: Seq<char>,
    second_number: nat,
)
    requires
        is_first_free(taken, first, first_number),
        taken.insert(numbered(first, first_number)).subset_of(later),
        is_first_free(later, second, second_number),
    ensures
        numbered(first, first_number) != numbered(second, second_number),
{
    assert(taken.insert(numbered(first, first_number)).contains(numbered(first, first_number)));
}

/// While the plain name is free, it is the plain name that is claimed.
pub proof fn law_plain_name_comes_first(taken: Set<Seq<char>>, name: Seq<char>, number: nat)
    requires
        !taken.contains(name + ".json"@),
        is_first_free(taken, name, number),
    ensures
        number == 0,
        numbered(name, number) == name + ".json"@,
{
    if number > 0 {
        assert(taken.contains(numbered(name, 0)));
    }
}

// ---------------------------------------------------------------------------
// Content
// ---------------------------------------------------------------------------

/// The character that stands for another in a file name.
pub open spec fn safe_char(c: char) -> char {
    if c == '/' || c == '\\' || c == ':' || c == '*' || c == '?' || c == '"' || c == '<' || c == '>'
        || c == '|' || control_char(c) {
        '_'
    } else {
        c
    }
}

/// A name with every character that file systems refuse replaced.
pub open spec fn sanitized(name: Seq<char>) -> Seq<char> {
    name.map_values(|c: char| safe_char(c))
}

/// A file extension without the dot that it may start with.
pub open spec fn without_dot(extension: Seq<char>) -> Seq<char> {
    if extension.len() > 0 && extension[0] == '.' {
        extension.drop_first()
    } else {
        extension
    }
}

/// The name of the file that content is written to.
pub open spec fn content_file_name(
    hash: Seq<char>,
    extension: Seq<char>,
    debug_name: Option<Seq<char>>,
    use_debug_names: bool,
) -> Seq<char> {
    match debug_name {
        Some(name) if use_debug_names => sanitized(name) + "_"@ + hash + "."@ + without_dot(
            extension,
        ),
        _ => hash + "."@ + without_dot(extension),
    }
}

/// A name with every character that file systems refuse replaced.
fn sanitize(name: &str) -> (safe: String)
    ensures
        safe@ == sanitized(name@),
{
    let chars = chars_of(name);
    let mut safe = String::new();
    let mut i: usize = 0;
    while i < chars.len()
        invariant
            chars@ == name@,
            i <= chars@.len(),
            safe@ == sanitized(name@).take(i as int),
        decreases chars@.len() - i,
    {
        let c = chars[i];
        let replaced = match c {
            '/' | '\\' | ':' | '*' | '?' | '"' | '<' | '>' | '|' => '_',
            _ => if c.is_control() {
                '_'
            } else {
                c
            },
        };
        proof {
            assert(sanitized(name@).take(i + 1) =~= sanitized(name@).take(i as int).push(
                safe_char(c),
            ));
        }
        safe.push(replaced);
        i = i + 1;
    }
    proof {
        assert(sanitized(name@).take(name@.len() as int) =~= sanitized(name@));
    }
    safe
}

/// A file extension without the dot that it may start with.
fn strip_dot(extension: &str) -> (stripped: String)
    ensures
        stripped@ == without_dot(extension@),
{
    let chars = chars_of(extension);
    let start: usize = if chars.len() > 0 && chars[0] == '.' {
        1
    } else {
        0
    };
    proof {
        assert(extension@.subrange(start as int, extension@.len() as int) =~= without_dot(
            extension@,
        ));
    }
    text_of(&chars, start, chars.len())
}

/// The name of the file that content is written to: its hash and the extension,
/// after the name it goes by if that is wanted and there is one. The extension may
/// start with a dot or not.
pub fn generate_filename(
    hash: &str,
    extension: &str,
    debug_name: Option<&str>,
    use_debug_names: bool,
) -> (file_name: String)
    ensures
        file_name@ == content_file_name(
            hash@,
            extension@,
            optional_str(debug_name),
            use_debug_names,
        ),
{
    let stripped = strip_dot(extension);
    match debug_name {
        Some(name) if use_debug_names => {
            let mut file_name = sanitize(name);
            file_name.append("_");
            file_name.append(hash);
            file_name.append(".");
            file_name.append(stripped.as_str());
            file_name
        },
        _ => concat3(hash, ".", stripped.as_str()),
    }
}

/// The place of a file below the output directory: within the folder of its
/// content type, if the output is organised and there is such a folder.
pub open spec fn output_place(
    organize: bool,
    content_type: Seq<char>,
    file_name: Seq<char>,
) -> Seq<Seq<char>> {
    if organize && content_type.len() > 0 {
        seq![content_type, file_name]
    } else {
        seq![file_name]
    }
}

/// The place of a file below the output directory, as the names to join to it.
pub fn get_output_path(organize: bool, content_type: &str, file_name: &str) -> (place: Vec<String>)
    ensures
        texts(place@) == output_place(organize, content_type@, file_name@),
{
    let mut place: Vec<String> = Vec::new();
    if organize && !content_type.is_empty() {
        place.push(content_type.to_owned());
    }
    place.push(file_name.to_owned());
    proof {
        assert(texts(place@) =~= output_place(organize, content_type@, file_name@));
    }
    place
}

/// No character that file systems refuse is left in a sanitized name, and a name
/// without such characters stays as it is.
pub proof fn law_sanitized_names_are_safe(name: Seq<char>)
    ensures
        sanitized(name).len() == name.len(),
        forall|i: int|
            0 <= i < name.len() ==> safe_char(#[trigger] sanitized(name)[i]) == sanitized(name)[i],
        (forall|i: int| 0 <= i < name.len() ==> safe_char(#[trigger] name[i]) == name[i])
            ==> sanitized(name) == name,
{
    if forall|i: int| 0 <= i < name.len() ==> safe_char(#[trigger] name[i]) == name[i] {
        assert(sanitized(name) =~= name);
    }
}

/// A dot in front of the extension changes nothing.
pub proof fn law_dot_is_optional(
    hash: Seq<char>,
    extension: Seq<char>,
    debug_name: Option<Seq<char>>,
    use_debug_names: bool,
)
    requires
        extension.len() == 0 || extension[0] != '.',
    ensures
        content_file_name(hash, seq!['.'] + extension, debug_name, use_debug_names)
            == content_file_name(hash, extension, debug_name, use_debug_names),
{
    assert(without_dot(seq!['.'] + extension) =~= extension);
}

/// Blobs with different hashes are written to different files, whatever names they
/// go by, as long as all hashes are written with the same number of characters.
pub proof fn law_different_hashes_different_files(
    hash: Seq<char>,
    other_hash: Seq<char>,
    extension: Seq<char>,
    name: Option<Seq<char>>,
    other_name: Option<Seq<char>>,
    use_debug_names: bool,
)
    requires
        hash.len() == other_hash.len(),
        hash != other_hash,
    ensures
        content_file_name(hash, extension, name, use_debug_names) != content_file_name(
            other_hash,
            extension,
            other_name,
            use_debug_names,
        ),
{
    reveal_strlit("_");
    reveal_strlit(".");
    let a = content_file_name(hash, extension, name, use_debug_names);
    let b = content_file_name(other_hash, extension, other_name, use_debug_names);
    let tail = 1 + without_dot(extension).len();
    if a == b {
        let end = a.len() - tail;
        assert(a.subrange(end - hash.len(), end) =~= hash);
        assert(b.subrange(end - hash.len(), end) =~= other_hash);
    }
}

/// In a sanitized name, `_` stands in the place of each of nine characters and of each
/// control character. Every other character stays.
pub proof fn law_what_is_sanitized(name: Seq<char>, i: int)
    requires
        0 <= i < name.len(),
    ensures
        sanitized(name).len() == name.len(),
        seq!['/', '\\', ':', '*', '?', '"', '<', '>', '|'].contains(name[i]) || (name[i] as u32)
            < 0x20 || 0x7f <= name[i] as u32 <= 0x9f ==> sanitized(name)[i] == '_',
        !seq!['/', '\\', ':', '*', '?', '"', '<', '>', '|'].contains(name[i]) && !((name[i] as u32)
            < 0x20) && !(0x7f <= name[i] as u32 <= 0x9f) ==> sanitized(name)[i] == name[i],
{
    let c = name[i];
    let refused = seq!['/', '\\', ':', '*', '?', '"', '<', '>', '|'];
    assert(refused[0] == '/');
    assert(refused[1] == '\\');
    assert(refused[2] == ':');
    assert(refused[3] == '*');
    assert(refused[4] == '?');
    assert(refused[5] == '"');
    assert(refused[6] == '<');
    assert(refused[7] == '>');
    assert(refused[8] == '|');
}

/// A file goes by the hash and the extension, with the sanitized name of the content in
/// front if there is one and it is asked for. A dot in front of the extension makes no
/// difference.
pub proof fn law_forms_of_file_names(
    hash: Seq<char>,
    extension: Seq<char>,
    name: Seq<char>,
    use_debug_names: bool,
    debug_name: Option<Seq<char>>,
)
    ensures
        content_file_name(hash, seq!['.'] + extension, Some(name), true) == sanitized(name)
            + seq!['_'] + hash + seq!['.'] + extension,
        content_file_name(hash, seq!['.'] + extension, None, use_debug_names) == hash + seq!['.']
            + extension,
        content_file_name(hash, seq!['.'] + extension, debug_name, false) == hash + seq!['.']
            + extension,
        extension.len() == 0 || extension[0] != '.' ==> content_file_name(
            hash,
            extension,
            debug_name,
            use_debug_names,
        ) == content_file_name(hash, seq!['.'] + extension, debug_name, use_debug_names),
{
    reveal_strlit(".");
    reveal_strlit("_");
    assert("."@ =~= seq!['.']);
    assert("_"@ =~= seq!['_']);
    assert((seq!['.'] + extension)[0] == '.');
    assert((seq!['.'] + extension).drop_first() =~= extension);
}

/// A file goes into the folder of what it holds only if that is asked for and the folder
/// has a name.
pub proof fn law_where_files_go(
    organize: bool,
    folder: Seq<char>,
    file_name: Seq<char>,
)
    ensures
        folder.len() > 0 ==> output_place(true, folder, file_name) == seq![folder, file_name],
        output_place(false, folder, file_name) == seq![file_name],
        output_place(organize, Seq::empty(), file_name) == seq![file_name],
{
}

/// The first file of a name has no number, and the others have theirs in front of the
/// ending.
pub proof fn law_forms_of_numbered_names(name: Seq<char>, number: nat)
    ensures
        numbered(name, 0) == name + ".json"@,
        number > 0 ==> numbered(name, number) == name + seq!['.'] + decimal(number) + ".json"@,
{
    reveal_strlit(".");
    assert("."@ =~= seq!['.']);
}

/// The number of a claimed name is the least that is free.
pub proof fn law_claimed_number_is_the_least(
    taken: Set<Seq<char>>,
    name: Seq<char>,
    number: nat,
    other: nat,
)
    requires
        is_first_free(taken, name, number),
        !taken.contains(numbered(name, other)),
    ensures
        !taken.contains(numbered(name, number)),
        number <= other,
{
}

} // verus!
