//! The product that the sandbox runs.

use vstd::prelude::*;

use crate::text::chars::{cat2, cat3, chars_of};
use crate::text::search;

verus! {

/// The names of the product that the sandbox runs.
#[derive(Debug)]
pub struct Product {
    /// Its program.
    pub program: String,
    /// What it is called.
    pub title: String,
    /// What the names of its main models begin with.
    pub families: Vec<String>,
    /// The model with which a key is tried.
    pub model: String,
}

/// The name of the directory with the data of a program.
pub open spec fn data_name(program: Seq<char>) -> Seq<char> {
    "."@ + program
}

/// The name of the directory with the data of a program.
pub fn data_dir_name(program: &str) -> (r: String)
    ensures
        r@ == data_name(program@),
{
    cat2(".", program)
}

/// A name that stands in JSON as it is: without a quote, a backslash or a control character.
pub open spec fn is_plain_name(name: Seq<char>) -> bool {
    forall|i: int| 0 <= i < name.len() ==> name[i] >= ' ' && name[i] != '"' && name[i] != '\\'
}

/// Whether a name stands in JSON as it is.
pub fn plain_name(name: &str) -> (r: bool)
    ensures
        r == is_plain_name(name@),
{
    let cs = chars_of(name);
    let mut i: usize = 0;
    while i < cs.len()
        invariant
            i <= cs@.len(),
            cs@ == name@,
            is_plain_name(name@.take(i as int)),
        decreases cs@.len() - i,
    {
        let c = cs[i];
        if c < ' ' || c == '"' || c == '\\' {
            assert(name@[i as int] == c);
            return false;
        }
        i = i + 1;
        assert(name@.take(i as int) =~= name@.take(i - 1).push(c));
    }
    assert(name@.take(i as int) =~= name@);
    true
}

/// What is said where a program is not found.
pub open spec fn missing(program: Seq<char>) -> Seq<char> {
    "未找到 "@ + program + " 命令"@
}

/// What is said where a program is not found.
pub fn not_found(program: &str) -> (r: String)
    ensures
        r@ == missing(program@),
{
    cat3("未找到 ", program, " 命令")
}

/// The data of a program stand in a hidden directory with its name; where a program is not
/// found, it is named. A name with a quote, a backslash or a line break is not a plain one.
pub proof fn lemma_names(program: Seq<char>, name: Seq<char>)
    ensures
        data_name(program) == seq!['.'] + program,
        search::contains(missing(program), program),
        name.contains('"') || name.contains('\\') || name.contains('\n') ==> !is_plain_name(name),
{
    reveal_strlit(".");
    assert("."@ =~= seq!['.']);
    let m = missing(program);
    let k = "未找到 "@.len() as int;
    assert(m.subrange(k, k + program.len()) =~= program);
    assert(search::occurs_at(m, program, k));
    if is_plain_name(name) {
        assert forall|i: int| 0 <= i < name.len() implies name[i] != '"' && name[i] != '\\'
            && name[i] != '\n' by {
            assert(name[i] >= ' ');
        }
    }
}

} // verus!
