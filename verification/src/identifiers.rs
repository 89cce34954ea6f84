//! The list of stream identifiers to watch, as it is configured: one text
//! with a semicolon between each two identifiers.

use vstd::prelude::*;
use crate::text::{
    all_free_of, chars_of, join_with, lemma_join_split, lemma_split_pieces, split_on, texts,
};

verus! {

/// The identifiers that a configuration text names. The empty text names
/// none. Any other text names one identifier more than it holds semicolons,
/// in the order written; nothing is dropped, so a semicolon at either end, or
/// two in a row, name an empty identifier.
pub open spec fn identifiers_of(config: Seq<char>) -> Seq<Seq<char>> {
    if config.len() == 0 {
        Seq::empty()
    } else {
        split_on(config, ';')
    }
}

/// No identifier holds a semicolon, and the identifiers of a configuration
/// text, written with a semicolon between each two, are that text again:
/// nothing of it is lost or changed.
pub proof fn lemma_identifiers_join_back(config: Seq<char>)
    ensures
        all_free_of(identifiers_of(config), ';'),
        join_with(identifiers_of(config), ';') == config,
        config.len() > 0 ==> identifiers_of(config).len() >= 1,
{
    if config.len() == 0 {
        assert(join_with(identifiers_of(config), ';') =~= config);
    } else {
        lemma_split_pieces(config, ';');
        lemma_join_split(config, ';');
    }
}

/// Reads the configured list of stream identifiers.
pub fn parse_identifiers(config: &str) -> (identifiers: Vec<String>)
    ensures
        texts(identifiers@) == identifiers_of(config@),
{
    let chars = chars_of(config);
    let n: usize = chars.len();
    let mut identifiers: Vec<String> = Vec::new();
    if n == 0 {
        assert(texts(identifiers@) =~= identifiers_of(config@));
        return identifiers;
    }
    let mut start: usize = 0;
    let mut i: usize = 0;
    assert(config@.take(0) =~= Seq::<char>::empty());
    assert(texts(identifiers@).push(config@.subrange(0, 0)) =~= split_on(config@.take(0), ';'));
    while i < n
        invariant
            n == config@.len(),
            chars@ == config@,
            0 <= start <= i <= n,
            texts(identifiers@).push(config@.subrange(start as int, i as int)) == split_on(
                config@.take(i as int),
                ';',
            ),
        decreases n - i,
    {
        let ghost before = texts(identifiers@).push(config@.subrange(start as int, i as int));
        proof {
            assert(config@.take(i + 1).drop_last() =~= config@.take(i as int));
            assert(config@.take(i + 1).last() == config@[i as int]);
        }
        if chars[i] == ';' {
            let piece = String::from_str(config.substring_char(start, i));
            identifiers.push(piece);
            start = i + 1;
            proof {
                assert(texts(identifiers@) =~= before);
                assert(config@.subrange(i + 1, i + 1) =~= Seq::<char>::empty());
            }
        } else {
            proof {
                assert(before.drop_last() =~= texts(identifiers@));
                assert(before.last().push(config@[i as int]) =~= config@.subrange(
                    start as int,
                    i + 1,
                ));
            }
        }
        i = i + 1;
    }
    let ghost before = texts(identifiers@).push(config@.subrange(start as int, n as int));
    let piece = String::from_str(config.substring_char(start, n));
    identifiers.push(piece);
    proof {
        assert(config@.take(n as int) =~= config@);
        assert(texts(identifiers@) =~= before);
    }
    identifiers
}

} // verus!
