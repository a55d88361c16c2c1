use vstd::prelude::*;

verus! {

/// One upstream endpoint: a host name and a TCP port.
///
/// Built from a `"host:port"` string; the string is split on its last `':'`
/// and the part after the split must be a decimal unsigned 16-bit integer.
#[derive(Debug, Clone, PartialEq)]
pub struct HostPort {
    pub host: String,
    pub port: u16,
}

/// Errors raised while building the upstream pool from configuration.
/// Both are construction-time failures, fatal to startup.
#[derive(Clone, Copy, Debug, PartialEq, Eq, Structural)]
pub enum PoolError {
    /// An endpoint string without a separator, or whose port segment is not
    /// a valid unsigned 16-bit integer.
    MalformedEndpoint,
    /// A pool with no endpoints at all.
    EmptyPool,
}

pub open spec fn is_ascii_digit(c: char) -> bool {
    48 <= c as u32 <= 57
}

pub open spec fn digit_val(c: char) -> int {
    c as u32 - 48
}

/// Numeric value of a sequence of decimal digit characters.
pub open spec fn digits_value(s: Seq<char>) -> int
    decreases s.len(),
{
    if s.len() == 0 {
        0
    } else {
        digits_value(s.drop_last()) * 10 + digit_val(s.last())
    }
}

pub open spec fn all_digits(s: Seq<char>) -> bool {
    forall|i: int| 0 <= i < s.len() ==> is_ascii_digit(s[i])
}

/// What a valid port segment means: non-empty, all decimal digits, and a
/// value of at most `u16::MAX`.
pub open spec fn parse_port(s: Seq<char>) -> Option<u16> {
    if s.len() > 0 && all_digits(s) && digits_value(s) <= 65535 {
        Some(digits_value(s) as u16)
    } else {
        None
    }
}

/// Index of the last `':'` of `s`, if `s` holds one.
pub open spec fn last_colon(s: Seq<char>) -> Option<int>
    decreases s.len(),
{
    if s.len() == 0 {
        None
    } else if s.last() == ':' {
        Some(s.len() - 1)
    } else {
        last_colon(s.drop_last())
    }
}

/// What parsing an endpoint string means: split on the last `':'`; the part
/// before it is the host, the part after it must be a valid port segment.
pub open spec fn parse_host_port(s: Seq<char>) -> Option<(Seq<char>, u16)> {
    match last_colon(s) {
        None => None,
        Some(ci) => match parse_port(s.subrange(ci + 1, s.len() as int)) {
            None => None,
            Some(p) => Some((s.subrange(0, ci), p)),
        },
    }
}

proof fn lemma_digits_value_nonneg(s: Seq<char>)
    requires
        all_digits(s),
    ensures
        digits_value(s) >= 0,
    decreases s.len(),
{
    if s.len() > 0 {
        lemma_digits_value_nonneg(s.drop_last());
    }
}

/// The value of a digit string never drops when more digits follow.
proof fn lemma_digits_value_prefix_le(s: Seq<char>, k: int)
    requires
        all_digits(s),
        0 <= k <= s.len(),
    ensures
        digits_value(s.subrange(0, k)) <= digits_value(s),
    decreases s.len() - k,
{
    if k == s.len() {
        assert(s.subrange(0, k) =~= s);
    } else {
        lemma_digits_value_prefix_le(s, k + 1);
        assert(s.subrange(0, k + 1).drop_last() =~= s.subrange(0, k));
        lemma_digits_value_nonneg(s.subrange(0, k));
        assert(digits_value(s.subrange(0, k + 1)) == digits_value(s.subrange(0, k)) * 10
            + digit_val(s.subrange(0, k + 1).last()));
    }
}

impl HostPort {
    /// Parses a `"host:port"` endpoint string, splitting on the last `':'`.
    pub fn new(host_port: &str) -> (r: Result<HostPort, PoolError>)
        ensures
            match r {
                Ok(hp) => parse_host_port(host_port@) == Some((hp.host@, hp.port)),
                Err(e) => e == PoolError::MalformedEndpoint && parse_host_port(host_port@) is None,
            },
    {
        let n = host_port.unicode_len();
        let mut colon: Option<usize> = None;
        let mut i: usize = 0;
        while i < n
            invariant
                i <= n,
                n == host_port@.len(),
                match colon {
                    Some(c) => c < i && last_colon(host_port@.subrange(0, i as int)) == Some(
                        c as int,
                    ),
                    None => last_colon(host_port@.subrange(0, i as int)) is None,
                },
            decreases n - i,
        {
            let c = host_port.get_char(i);
            if c == ':' {
                colon = Some(i);
            }
            proof {
                assert(host_port@.subrange(0, i + 1).drop_last() =~= host_port@.subrange(
                    0,
                    i as int,
                ));
                assert(host_port@.subrange(0, i + 1).last() == host_port@[i as int]);
            }
            i = i + 1;
        }
        proof {
            assert(host_port@.subrange(0, n as int) =~= host_port@);
        }
        let ci = match colon {
            Some(c) => c,
            None => {
                return Err(PoolError::MalformedEndpoint);
            },
        };
        let ghost seg = host_port@.subrange(ci + 1, n as int);
        if ci + 1 == n {
            // empty port segment
            return Err(PoolError::MalformedEndpoint);
        }
        let mut val: u32 = 0;
        let mut j: usize = ci + 1;
        while j < n
            invariant
                ci < j <= n,
                ci + 1 < n,
                n == host_port@.len(),
                last_colon(host_port@) == Some(ci as int),
                seg == host_port@.subrange(ci + 1, n as int),
                all_digits(host_port@.subrange(ci + 1, j as int)),
                val == digits_value(host_port@.subrange(ci + 1, j as int)),
                val <= 65535,
            decreases n - j,
        {
            let c = host_port.get_char(j);
            let u = c as u32;
            if u < 48 || u > 57 {
                assert(!is_ascii_digit(seg[j - (ci + 1)]));
                return Err(PoolError::MalformedEndpoint);
            }
            let d = u - 48;
            let nv = val * 10 + d;
            proof {
                assert(host_port@.subrange(ci + 1, j + 1).drop_last() =~= host_port@.subrange(
                    ci + 1,
                    j as int,
                ));
                assert(host_port@.subrange(ci + 1, j + 1).last() == host_port@[j as int]);
            }
            if nv > 65535 {
                proof {
                    if all_digits(seg) {
                        lemma_digits_value_prefix_le(seg, j + 1 - (ci + 1));
                        assert(seg.subrange(0, j + 1 - (ci + 1)) =~= host_port@.subrange(
                            ci + 1,
                            j + 1,
                        ));
                    }
                }
                return Err(PoolError::MalformedEndpoint);
            }
            val = nv;
            j = j + 1;
        }
        proof {
            assert(host_port@.subrange(ci + 1, j as int) =~= seg);
        }
        let host = host_port.substring_char(0, ci).to_owned();
        Ok(HostPort { host, port: val as u16 })
    }

    /// The spec-level picture of an endpoint: its host characters and port.
    pub open spec fn model(self) -> (Seq<char>, u16) {
        (self.host@, self.port)
    }

    /// The `"host:port"` string of this endpoint.
    pub fn authority(&self) -> (r: String)
        ensures
            r@ == self.host@ + ":"@ + crate::decimal::dec_rep(self.port as nat),
    {
        let mut s = self.host.clone();
        s.append(":");
        crate::decimal::push_decimal(&mut s, self.port as u32);
        s
    }
}

/// The ordered pool of upstream endpoints. Immutable for the process
/// lifetime; its one invariant is that it is never empty.
pub struct Upstream {
    pub servers: Vec<HostPort>,
}

impl Upstream {
    /// A usable pool holds at least one endpoint.
    pub open spec fn wf(self) -> bool {
        self.servers@.len() > 0
    }

    /// Builds the pool by parsing every `"host:port"` spec string.
    ///
    /// An empty input list is refused with `EmptyPool`; any spec string that
    /// does not parse is refused with `MalformedEndpoint`.
    pub fn new(upstream_servers: &Vec<String>) -> (r: Result<Upstream, PoolError>)
        ensures
            match r {
                Ok(up) => {
                    &&& upstream_servers@.len() > 0
                    &&& up.wf()
                    &&& up.servers@.len() == upstream_servers@.len()
                    &&& forall|i: int|
                        0 <= i < upstream_servers@.len() ==> parse_host_port(
                            upstream_servers@[i]@,
                        ) == Some(#[trigger] up.servers@[i].model())
                },
                Err(PoolError::EmptyPool) => upstream_servers@.len() == 0,
                Err(PoolError::MalformedEndpoint) => exists|i: int|
                    0 <= i < upstream_servers@.len() && parse_host_port(
                        #[trigger] upstream_servers@[i]@,
                    ) is None,
            },
    {
        if upstream_servers.len() == 0 {
            return Err(PoolError::EmptyPool);
        }
        let mut servers: Vec<HostPort> = Vec::new();
        let mut i: usize = 0;
        while i < upstream_servers.len()
            invariant
                i <= upstream_servers@.len(),
                servers@.len() == i,
                forall|k: int|
                    0 <= k < i ==> parse_host_port(upstream_servers@[k]@) == Some(
                        #[trigger] servers@[k].model(),
                    ),
            decreases upstream_servers@.len() - i,
        {
            match HostPort::new(upstream_servers[i].as_str()) {
                Ok(hp) => {
                    servers.push(hp);
                },
                Err(_) => {
                    return Err(PoolError::MalformedEndpoint);
                },
            }
            i = i + 1;
        }
        Ok(Upstream { servers })
    }

    /// Builds the pool from the validated configuration's endpoint list.
    pub fn from_config(config: &crate::config::Config) -> (r: Result<Upstream, PoolError>)
        ensures
            match r {
                Ok(up) => {
                    &&& config.upstream_servers@.len() > 0
                    &&& up.wf()
                    &&& up.servers@.len() == config.upstream_servers@.len()
                    &&& forall|i: int|
                        0 <= i < config.upstream_servers@.len() ==> parse_host_port(
                            config.upstream_servers@[i]@,
                        ) == Some(#[trigger] up.servers@[i].model())
                },
                Err(PoolError::EmptyPool) => config.upstream_servers@.len() == 0,
                Err(PoolError::MalformedEndpoint) => exists|i: int|
                    0 <= i < config.upstream_servers@.len() && parse_host_port(
                        #[trigger] config.upstream_servers@[i]@,
                    ) is None,
            },
    {
        Self::new(&config.upstream_servers)
    }

    /// Starts a fresh traversal at a uniformly drawn offset. The pool itself
    /// is never changed by this call; one random draw is consumed.
    pub fn start_from_random(&self) -> (it: UpstreamIterator<'_>)
        requires
            self.wf(),
        ensures
            it.wf(),
            it.pool() == self.servers@,
            it.visited() == 0,
    {
        let start_ind = rand::random::<usize>();
        UpstreamIterator::new(&self.servers, start_ind)
    }
}

/// Relies on rand::random: draws one value from the process RNG. Nothing is
/// promised of the drawn value.
pub assume_specification<T>[ rand::random::<T> ]() -> (r: T)
    where
        rand::distributions::Standard: rand::distributions::Distribution<T>,
;

/// For offsets below `2 * n`, reducing modulo `n` is one subtraction.
proof fn lemma_wrap_mod(x: int, n: int)
    requires
        0 < n,
        0 <= x < 2 * n,
    ensures
        x % n == if x < n {
            x
        } else {
            x - n
        },
{
    if x < n {
        vstd::arithmetic::div_mod::lemma_small_mod(x as nat, n as nat);
    } else {
        vstd::arithmetic::div_mod::lemma_mod_sub_multiples_vanish(x, n);
        vstd::arithmetic::div_mod::lemma_small_mod((x - n) as nat, n as nat);
    }
}

/// The traversal order over a pool: one full rotation of the pool starting
/// at `start`.
pub open spec fn rotation(pool: Seq<HostPort>, start: int) -> Seq<HostPort> {
    Seq::new(pool.len(), |i: int| pool[(start + i) % (pool.len() as int)])
}

/// Traversal completeness: a single traversal of a pool visits exactly the
/// pool's endpoints, each exactly once (as a multiset, so duplicate
/// endpoints in the pool stay separate traversal members), in index order
/// modulo one rotation.
pub proof fn lemma_traversal_complete(pool: Seq<HostPort>, start: int)
    requires
        0 <= start < pool.len(),
    ensures
        rotation(pool, start).len() == pool.len(),
        rotation(pool, start).to_multiset() == pool.to_multiset(),
        forall|i: int|
            0 <= i < pool.len() ==> #[trigger] rotation(pool, start)[i] == pool[(start + i) % (
            pool.len() as int)],
{
    broadcast use vstd::multiset::group_multiset_axioms;

    let tail = pool.subrange(start, pool.len() as int);
    let head = pool.subrange(0, start);
    assert(rotation(pool, start) =~= tail + head) by {
        let n = pool.len() as int;
        assert forall|i: int| 0 <= i < n implies rotation(pool, start)[i] == (tail + head)[i] by {
            lemma_wrap_mod(start + i, n);
        }
    }
    assert(pool =~= head + tail);
    vstd::seq_lib::lemma_multiset_commutative(tail, head);
    vstd::seq_lib::lemma_multiset_commutative(head, tail);
    assert(rotation(pool, start).to_multiset() =~= pool.to_multiset());
}

/// A per-request traversal over the pool: yields `pool.len()` endpoints,
/// starting at `start()` and wrapping around. Not restartable.
pub struct UpstreamIterator<'a> {
    servers: &'a Vec<HostPort>,
    start_ind: usize,
    visited: usize,
}

impl<'a> UpstreamIterator<'a> {
    /// The pool being traversed.
    pub closed spec fn pool(self) -> Seq<HostPort> {
        self.servers@
    }

    /// The offset at which the traversal started.
    pub closed spec fn start(self) -> int {
        self.start_ind as int
    }

    /// How many endpoints the traversal has yielded so far.
    pub closed spec fn visited(self) -> int {
        self.visited as int
    }

    pub open spec fn wf(self) -> bool {
        &&& self.pool().len() > 0
        &&& 0 <= self.start() < self.pool().len()
        &&& 0 <= self.visited() <= self.pool().len()
    }

    /// Starts a traversal at `start_ind`, reduced modulo the pool length.
    pub fn new(servers: &'a Vec<HostPort>, start_ind: usize) -> (r: Self)
        requires
            servers@.len() > 0,
        ensures
            r.wf(),
            r.pool() == servers@,
            r.start() == start_ind as int % servers@.len() as int,
            r.visited() == 0,
    {
        UpstreamIterator { servers, start_ind: start_ind % servers.len(), visited: 0 }
    }

    /// Yields the next endpoint of the traversal: the `visited()`-th member
    /// of the rotation that starts at `start()`, or `None` once every pool
    /// member has been visited exactly once.
    pub fn next(&mut self) -> (r: Option<&'a HostPort>)
        requires
            old(self).wf(),
        ensures
            final(self).wf(),
            final(self).pool() == old(self).pool(),
            final(self).start() == old(self).start(),
            match r {
                Some(hp) => {
                    &&& old(self).visited() < old(self).pool().len()
                    &&& final(self).visited() == old(self).visited() + 1
                    &&& *hp == rotation(old(self).pool(), old(self).start())[old(self).visited()]
                },
                None => {
                    &&& old(self).visited() == old(self).pool().len()
                    &&& final(self).visited() == old(self).visited()
                },
            },
    {
        if self.visited == self.servers.len() {
            return None;
        }
        let len = self.servers.len();
        let ix = if self.start_ind < len - self.visited {
            self.start_ind + self.visited
        } else {
            self.visited - (len - self.start_ind)
        };
        assert(ix as int == (self.start() + self.visited()) % (self.pool().len() as int)) by {
            lemma_wrap_mod(self.start() + self.visited(), self.pool().len() as int);
        };
        let result = &self.servers[ix];
        self.visited = self.visited + 1;
        Some(result)
    }
}

} // verus!
