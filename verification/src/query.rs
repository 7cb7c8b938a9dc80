//! Query strings of the form `key=value&key2=value2`.
//!
//! An ampersand cuts the query into pieces. A piece with an equals sign is a
//! pair: the key stands before the first equals sign, the value behind it.
//! A piece without one is no pair and is left out whole.

use crate::params::ParamMap;
use crate::text::{find_byte, pieces, rows, split_pieces};
use vstd::prelude::*;
use vstd::slice::{slice_subrange, slice_to_vec};

verus! {

/// The byte between two pairs of a query.
pub const AMPERSAND: u8 = 38;

/// The byte between a key and its value.
pub const EQUALS: u8 = 61;

/// The pair that a piece of a query stands for, if it stands for one.
pub open spec fn pair_of(piece: Seq<u8>) -> Option<(Seq<u8>, Seq<u8>)> {
    let n = crate::text::run_length(piece, EQUALS) as int;
    if n < piece.len() {
        Some((piece.take(n), piece.skip(n + 1)))
    } else {
        None
    }
}

/// The pairs that a list of pieces stands for, in order.
pub open spec fn pairs_of(list: Seq<Seq<u8>>) -> Seq<(Seq<u8>, Seq<u8>)>
    decreases list.len(),
{
    if list.len() == 0 {
        Seq::empty()
    } else {
        let before = pairs_of(list.drop_last());
        match pair_of(list.last()) {
            Some(pair) => before.push(pair),
            None => before,
        }
    }
}

/// The pairs of a query string, in order.
pub open spec fn query_pairs(query: Seq<u8>) -> Seq<(Seq<u8>, Seq<u8>)> {
    pairs_of(pieces(query, AMPERSAND))
}

/// Reads the pairs of a query string.
pub fn parse_query(query: &[u8]) -> (map: ParamMap)
    ensures
        map@ == query_pairs(query@),
{
    let parts = split_pieces(query, AMPERSAND);
    let mut map = ParamMap::new();
    let mut i: usize = 0;
    assert(rows(parts@).take(0) =~= Seq::<Seq<u8>>::empty());
    while i < parts.len()
        invariant
            i <= parts.len(),
            map@ == pairs_of(rows(parts@).take(i as int)),
        decreases parts.len() - i,
    {
        let piece = parts[i].as_slice();
        assert(rows(parts@).take(i + 1).drop_last() =~= rows(parts@).take(i as int));
        assert(rows(parts@).take(i + 1).last() == piece@);
        assert(piece@.skip(0) =~= piece@);
        let at = find_byte(piece, 0, EQUALS);
        if at < piece.len() {
            let key = slice_to_vec(slice_subrange(piece, 0, at));
            let value = slice_to_vec(slice_subrange(piece, at + 1, piece.len()));
            assert(key@ =~= piece@.take(at as int));
            assert(value@ =~= piece@.skip(at + 1));
            map.push(key, value);
        }
        i += 1;
    }
    assert(rows(parts@).take(i as int) =~= rows(parts@));
    map
}

} // verus!
