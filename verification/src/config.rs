//! Configuration: the pack store and vendor-index list locations, and the
//! seed file's line format — one URL per line, blank lines dropped.

use vstd::prelude::*;

verus! {

/// The resolved configuration: where packs are stored and where the
/// vendor-index seed list lives.
#[derive(Debug)]
pub struct Config {
    pub pack_store: String,
    pub vidx_list: String,
}

/// A configuration being assembled; what is not set falls back to a
/// platform default that the caller supplies.
#[derive(Debug)]
pub struct ConfigBuilder {
    pub pack_store: Option<String>,
    pub vidx_list: Option<String>,
}

impl ConfigBuilder {
    /// Starts with nothing set.
    pub fn new() -> (r: ConfigBuilder)
        ensures
            r.pack_store is None,
            r.vidx_list is None,
    {
        ConfigBuilder { pack_store: None, vidx_list: None }
    }

    /// Sets the pack store directory.
    pub fn with_pack_store(self, ps: String) -> (r: ConfigBuilder)
        ensures
            r.pack_store == Some(ps),
            r.vidx_list == self.vidx_list,
    {
        ConfigBuilder { pack_store: Some(ps), vidx_list: self.vidx_list }
    }

    /// Sets the vendor-index list file.
    pub fn with_vidx_list(self, vl: String) -> (r: ConfigBuilder)
        ensures
            r.vidx_list == Some(vl),
            r.pack_store == self.pack_store,
    {
        ConfigBuilder { pack_store: self.pack_store, vidx_list: Some(vl) }
    }

    /// Resolves the configuration, falling back to the given platform
    /// defaults for anything unset.
    pub fn build_with_defaults(self, default_store: String, default_vidx: String) -> (r: Config)
        ensures
            r.pack_store == (match self.pack_store {
                Some(p) => p,
                None => default_store,
            }),
            r.vidx_list == (match self.vidx_list {
                Some(p) => p,
                None => default_vidx,
            }),
    {
        Config {
            pack_store: match self.pack_store {
                Some(p) => p,
                None => default_store,
            },
            vidx_list: match self.vidx_list {
                Some(p) => p,
                None => default_vidx,
            },
        }
    }
}

/// A line stripped of one trailing carriage return.
pub open spec fn spec_strip_cr(line: Seq<char>) -> Seq<char> {
    if line.len() > 0 && line.last() == '\r' {
        line.drop_last()
    } else {
        line
    }
}

/// One step of reading the seed file: a newline finishes the current
/// line, which joins the output unless blank; any other character extends
/// the current line.
pub open spec fn vl_step(acc: (Seq<Seq<char>>, Seq<char>), c: char) -> (Seq<Seq<char>>, Seq<char>) {
    if c == '\n' {
        let l = spec_strip_cr(acc.1);
        if l.len() > 0 {
            (acc.0.push(l), Seq::empty())
        } else {
            (acc.0, Seq::empty())
        }
    } else {
        (acc.0, acc.1.push(c))
    }
}

pub open spec fn vl_fold(acc: (Seq<Seq<char>>, Seq<char>), s: Seq<char>) -> (
    Seq<Seq<char>>,
    Seq<char>,
)
    decreases s.len(),
{
    if s.len() == 0 {
        acc
    } else {
        vl_fold(vl_step(acc, s[0]), s.drop_first())
    }
}

/// The non-blank seed URLs of a file's text, one per line, each stripped
/// of one trailing carriage return.
pub open spec fn spec_parse_vidx_list(s: Seq<char>) -> Seq<Seq<char>> {
    let acc = vl_fold((Seq::empty(), Seq::empty()), s);
    let l = spec_strip_cr(acc.1);
    if l.len() > 0 {
        acc.0.push(l)
    } else {
        acc.0
    }
}

/// Strips one trailing carriage return from a line.
fn strip_cr(line: String) -> (r: String)
    ensures
        r@ == spec_strip_cr(line@),
{
    let len = line.as_str().unicode_len();
    if len > 0 && line.as_str().get_char(len - 1) == '\r' {
        let r = line.as_str().substring_char(0, len - 1).to_owned();
        assert(r@ =~= line@.drop_last());
        r
    } else {
        line
    }
}

/// Splits a seed file's text into its non-blank URLs, one per line.
pub fn parse_vidx_list(s: &str) -> (r: Vec<String>)
    ensures
        r@.map_values(|x: String| x@) == spec_parse_vidx_list(s@),
{
    let len = s.unicode_len();
    let mut lines: Vec<String> = Vec::new();
    let mut cur = String::new();
    let mut i: usize = 0;
    proof {
        assert(s@.skip(0) =~= s@);
        assert(lines@.map_values(|x: String| x@) =~= Seq::<Seq<char>>::empty());
    }
    while i < len
        invariant
            0 <= i <= len == s@.len(),
            vl_fold((lines@.map_values(|x: String| x@), cur@), s@.skip(i as int)) == vl_fold(
                (Seq::empty(), Seq::empty()),
                s@,
            ),
        decreases len - i,
    {
        let ghost pre = s@.skip(i as int);
        assert(pre[0] == s@[i as int]);
        assert(pre.drop_first() =~= s@.skip(i as int + 1));
        let ghost acc0 = (lines@.map_values(|x: String| x@), cur@);
        let c = s.get_char(i);
        if c == '\n' {
            let done = strip_cr(cur);
            cur = String::new();
            if done.as_str().unicode_len() > 0 {
                let ghost lv = lines@.map_values(|x: String| x@);
                let ghost dv = done@;
                lines.push(done);
                proof {
                    assert(lines@.map_values(|x: String| x@) =~= lv.push(dv));
                    assert((lines@.map_values(|x: String| x@), cur@) == vl_step(
                        acc0,
                        s@[i as int],
                    ));
                }
            } else {
                proof {
                    assert((lines@.map_values(|x: String| x@), cur@) == vl_step(
                        acc0,
                        s@[i as int],
                    ));
                }
            }
        } else {
            cur.push(c);
            proof {
                assert((lines@.map_values(|x: String| x@), cur@) == vl_step(acc0, s@[i as int]));
            }
        }
        i = i + 1;
    }
    proof {
        assert(s@.skip(len as int) =~= Seq::<char>::empty());
    }
    let last = strip_cr(cur);
    if last.as_str().unicode_len() > 0 {
        let ghost lv = lines@.map_values(|x: String| x@);
        let ghost dv = last@;
        lines.push(last);
        proof {
            assert(lines@.map_values(|x: String| x@) =~= lv.push(dv));
        }
    }
    lines
}

/// The well-known default seed URLs, used when no seed file exists.
pub fn default_vidx_urls() -> (r: Vec<String>)
    ensures
        r@.len() == 2,
        r@[0]@ == "http://www.keil.com/pack/keil.vidx"@,
        r@[1]@ == "http://www.keil.com/pack/keil.pidx"@,
{
    let mut out: Vec<String> = Vec::new();
    out.push("http://www.keil.com/pack/keil.vidx".to_owned());
    out.push("http://www.keil.com/pack/keil.pidx".to_owned());
    out
}

} // verus!
