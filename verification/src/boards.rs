//! Boards: named, slug-addressed containers of threads, immutable once
//! seeded.

use vstd::prelude::*;

verus! {

/// The mathematical content of a [`Board`].
#[verifier::ext_equal]
pub ghost struct BoardV {
    pub name: Seq<char>,
    pub slug: Seq<char>,
    pub description: Seq<char>,
}

/// A board entity as persisted in the store.
#[derive(Debug, PartialEq)]
pub struct Board {
    pub name: String,
    pub slug: String,
    pub description: String,
}

impl View for Board {
    type V = BoardV;

    open spec fn view(&self) -> BoardV {
        BoardV { name: self.name@, slug: self.slug@, description: self.description@ }
    }
}

/// The identity string of a board with the given slug.
pub open spec fn board_ident_of(slug: Seq<char>) -> Seq<char> {
    "board:"@ + slug
}

impl Board {
    /// The store key of this board: `"board:"` followed by its slug.
    pub fn ident(&self) -> (r: String)
        ensures
            r@ == board_ident_of(self@.slug),
    {
        let mut r = "board:".to_owned();
        r.append(self.slug.as_str());
        r
    }
}

/// The board seeded at startup so a fresh instance has somewhere to post.
pub fn test_board() -> (b: Board)
    ensures
        b@.name == "test board"@,
        b@.slug == "test_board"@,
        b@.description == "board for testing shit"@,
{
    Board {
        name: "test board".to_owned(),
        slug: "test_board".to_owned(),
        description: "board for testing shit".to_owned(),
    }
}

} // verus!
