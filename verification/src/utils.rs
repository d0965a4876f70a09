//! Small verified helpers: string comparison and splitting, hex rendering,
//! the deterministic block picker, and the default node list.

use vstd::prelude::*;

verus! {

use vstd::string::StrSliceExecFns;
use vstd::string::StringExecFns;
use vstd::string::StringSliceAdditionalSpecFns;

/// Whether two string slices hold the same characters.
pub fn str_eq(a: &str, b: &str) -> (r: bool)
    ensures
        r == (a@ == b@),
{
    proof {
        vstd::utf8::encode_utf8_decode_utf8(a@);
        vstd::utf8::encode_utf8_decode_utf8(b@);
    }
    let ab = a.as_bytes();
    let bb = b.as_bytes();
    if ab.len() != bb.len() {
        return false;
    }
    let mut i: usize = 0;
    while i < ab.len()
        invariant
            i <= ab@.len(),
            ab@.len() == bb@.len(),
            ab@ == a.spec_bytes(),
            bb@ == b.spec_bytes(),
            forall|j: int| 0 <= j < i ==> ab@[j] == bb@[j],
            vstd::utf8::decode_utf8(a.spec_bytes()) == a@,
            vstd::utf8::decode_utf8(b.spec_bytes()) == b@,
        decreases ab@.len() - i,
    {
        if ab[i] != bb[i] {
            return false;
        }
        i += 1;
    }
    proof {
        assert(ab@ =~= bb@);
    }
    true
}

/// Whether two byte slices hold the same bytes.
pub fn bytes_eq(a: &[u8], b: &[u8]) -> (r: bool)
    ensures
        r == (a@ == b@),
{
    if a.len() != b.len() {
        return false;
    }
    let mut i: usize = 0;
    while i < a.len()
        invariant
            i <= a@.len(),
            a@.len() == b@.len(),
            forall|j: int| 0 <= j < i ==> a@[j] == b@[j],
        decreases a@.len() - i,
    {
        if a[i] != b[i] {
            return false;
        }
        i += 1;
    }
    proof {
        assert(a@ =~= b@);
    }
    true
}

/// One spec version becoming active at one block.
#[derive(Debug, Clone, Copy, PartialEq, Eq, Structural)]
pub struct SpecVersionUpdate {
    pub block: u32,
    pub spec_version: u32,
}

/// Given the same spec versions and the same number, this outputs the same
/// block, but the output is pseudorandom in nature: it cycles through the
/// first blocks of each spec version, then the blocks 1001 further on, and
/// so on, so that each version's whole range is sampled.
pub fn pick_pseudorandom_block(spec_versions: Option<&Vec<SpecVersionUpdate>>, number: usize) -> (r:
    u32)
    requires
        match spec_versions {
            Some(vs) => vs@.len() > 0 && (number as int / vs@.len() as int) * 1001 + vs@[number as int
                % vs@.len() as int].block <= u32::MAX,
            None => number <= u32::MAX,
        },
    ensures
        match spec_versions {
            Some(vs) => r == vs@[number as int % vs@.len() as int].block + (number as int
                / vs@.len() as int) * 1001,
            None => r == number,
        },
{
    let vs = match spec_versions {
        Some(vs) => vs,
        None => {
            return number as u32;
        },
    };
    let spec_version_idx = number % vs.len();
    let spec_version_block_idx = (number / vs.len()) * 1001;
    vs[spec_version_idx].block + spec_version_block_idx as u32
}

/// The pieces, joined back with the separator, give the original sequence.
pub open spec fn spec_join(pieces: Seq<Seq<char>>, sep: char) -> Seq<char>
    decreases pieces.len(),
{
    if pieces.len() == 0 {
        Seq::empty()
    } else if pieces.len() == 1 {
        pieces[0]
    } else {
        pieces[0] + seq![sep] + spec_join(pieces.drop_first(), sep)
    }
}

proof fn lemma_join_push(pieces: Seq<Seq<char>>, q: Seq<char>, sep: char)
    requires
        pieces.len() > 0,
    ensures
        spec_join(pieces.push(q), sep) == spec_join(pieces, sep) + seq![sep] + q,
    decreases pieces.len(),
{
    if pieces.len() == 1 {
        assert(pieces.push(q).drop_first() =~= seq![q]);
        assert(spec_join(seq![q], sep) == q);
        assert(spec_join(pieces.push(q), sep) == pieces[0] + seq![sep] + q);
    } else {
        assert(pieces.push(q).drop_first() =~= pieces.drop_first().push(q));
        lemma_join_push(pieces.drop_first(), q, sep);
        assert(spec_join(pieces, sep) + seq![sep] + q =~= pieces[0] + seq![sep] + (spec_join(
            pieces.drop_first(),
            sep,
        ) + seq![sep] + q));
    }
}

/// The views of the produced strings.
pub open spec fn views_of(pieces: Seq<String>) -> Seq<Seq<char>> {
    pieces.map_values(|p: String| p@)
}

/// Split a string at every occurrence of `sep`. The result is the unique
/// decomposition whose pieces are free of the separator and join back, with
/// the separator between them, to the input.
pub fn split_str(s: &str, sep: char) -> (r: Vec<String>)
    ensures
        r@.len() >= 1,
        spec_join(views_of(r@), sep) == s@,
        forall|i: int| 0 <= i < r@.len() ==> !(#[trigger] views_of(r@)[i]).contains(sep),
{
    let mut pieces: Vec<String> = Vec::new();
    let len = s.unicode_len();
    let mut start: usize = 0;
    let mut i: usize = 0;
    while i < len
        invariant
            start <= i <= len,
            len == s@.len(),
            pieces@.len() == 0 ==> start == 0,
            pieces@.len() > 0 ==> spec_join(views_of(pieces@), sep) + seq![sep] == s@.take(
                start as int,
            ),
            forall|j: int|
                0 <= j < pieces@.len() ==> !(#[trigger] views_of(pieces@)[j]).contains(sep),
            forall|j: int| start <= j < i ==> s@[j] != sep,
        decreases len - i,
    {
        let c = s.get_char(i);
        if c == sep {
            let piece = s.substring_char(start, i).to_owned();
            proof {
                assert(piece@ =~= s@.subrange(start as int, i as int));
                assert forall|j: int| 0 <= j < piece@.len() implies piece@[j] != sep by {
                    assert(piece@[j] == s@[start + j]);
                }
                assert(!piece@.contains(sep));
                if pieces@.len() > 0 {
                    lemma_join_push(views_of(pieces@), piece@, sep);
                }
                assert(views_of(pieces@.push(piece)) =~= views_of(pieces@).push(piece@));
                assert(s@.take(start as int) + piece@ + seq![sep] =~= s@.take(i as int + 1));
            }
            pieces.push(piece);
            start = i + 1;
        }
        i += 1;
    }
    let piece = s.substring_char(start, len).to_owned();
    proof {
        assert(piece@ =~= s@.subrange(start as int, len as int));
        assert forall|j: int| 0 <= j < piece@.len() implies piece@[j] != sep by {
            assert(piece@[j] == s@[start + j]);
        }
        assert(!piece@.contains(sep));
        if pieces@.len() > 0 {
            lemma_join_push(views_of(pieces@), piece@, sep);
        }
        assert(views_of(pieces@.push(piece)) =~= views_of(pieces@).push(piece@));
        assert(s@.take(start as int) + piece@ =~= s@);
        assert(s@.take(len as int) =~= s@);
    }
    pieces.push(piece);
    pieces
}

/// Unwrap the given URL string, returning the built-in RPC node list if not
/// given. A given string is split at commas, one URL per piece.
pub fn url_or_polkadot_rpc_nodes(url: Option<&str>) -> (r: Vec<String>)
    ensures
        match url {
            Some(u) => {
                &&& r@.len() >= 1
                &&& spec_join(views_of(r@), ',') == u@
                &&& forall|i: int| 0 <= i < r@.len() ==> !(#[trigger] views_of(r@)[i]).contains(',')
            },
            None => {
                &&& r@.len() == 7
                &&& r@[0]@ == "wss://polkadot-public-rpc.blockops.network/ws"@
                &&& r@[1]@ == "wss://polkadot-rpc.dwellir.com"@
                &&& r@[2]@ == "wss://polkadot.api.onfinality.io/public-ws"@
                &&& r@[3]@ == "wss://polkadot.public.curie.radiumblock.co/ws"@
                &&& r@[4]@ == "wss://rockx-dot.w3node.com/polka-public-dot/ws"@
                &&& r@[5]@ == "wss://rpc.ibp.network/polkadot"@
                &&& r@[6]@ == "wss://rpc.dotters.network/polkadot"@
            },
        },
{
    match url {
        Some(u) => split_str(u, ','),
        None => {
            let mut urls: Vec<String> = Vec::new();
            urls.push(("wss://polkadot-public-rpc.blockops.network/ws").to_owned());
            urls.push(("wss://polkadot-rpc.dwellir.com").to_owned());
            urls.push(("wss://polkadot.api.onfinality.io/public-ws").to_owned());
            urls.push(("wss://polkadot.public.curie.radiumblock.co/ws").to_owned());
            urls.push(("wss://rockx-dot.w3node.com/polka-public-dot/ws").to_owned());
            urls.push(("wss://rpc.ibp.network/polkadot").to_owned());
            urls.push(("wss://rpc.dotters.network/polkadot").to_owned());
            urls
        },
    }
}

/// Strip newline characters out of a declared type name; some historic
/// documents carry them mid-name.
pub fn sanitize_type_name(name: &str) -> (r: String)
    ensures
        r@ == name@.filter(|c: char| c != '\n'),
{
    let mut out = String::new();
    let len = name.unicode_len();
    let mut i: usize = 0;
    while i < len
        invariant
            i <= len,
            len == name@.len(),
            out@ == name@.take(i as int).filter(|c: char| c != '\n'),
        decreases len - i,
    {
        let c = name.get_char(i);
        proof {
            reveal(Seq::filter);
            assert(name@.take(i as int + 1).drop_last() =~= name@.take(i as int));
            assert(name@.take(i as int + 1).last() == name@[i as int]);
        }
        if c != '\n' {
            out.append(name.substring_char(i, i + 1));
            proof {
                assert(name@.subrange(i as int, i as int + 1) =~= seq![name@[i as int]]);
                assert(out@ =~= name@.take(i as int + 1).filter(|c: char| c != '\n'));
            }
        }
        i += 1;
    }
    proof {
        assert(name@.take(len as int) =~= name@);
    }
    out
}

} // verus!
