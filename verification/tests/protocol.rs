//! The limiters against a store that lives in memory: it takes the commands that a pipeline
//! sends, keeps counters and sorted sets with their lifetimes, and has a clock that the tests
//! set.

use rate_limiter_rs::address::IpAddress;
use rate_limiter_rs::entities::RateLimiterResponse;
use rate_limiter_rs::entities::RequestIdentifier;
use rate_limiter_rs::errors::RateLimiterError;
use rate_limiter_rs::factory::RateLimiterFactory;
use rate_limiter_rs::rate_limiters::fixed_window::FixedWindowRateLimiter;
use rate_limiter_rs::rate_limiters::sliding_window::SlidingWindowRateLimiter;
use rate_limiter_rs::rate_limiters::token_bucket::TokenBucketRateLimiter;
use redis::ConnectionLike;
use redis::ErrorKind;
use redis::RedisError;
use redis::RedisResult;
use redis::Value;
use std::collections::HashMap;
use std::time::Duration;
use std::time::SystemTime;

enum Entry {
    Counter(i64),
    Sorted(Vec<(u64, Vec<u8>)>),
}

struct MemoryStore {
    now_ms: i64,
    entries: HashMap<Vec<u8>, (Entry, Option<i64>)>,
    queued: Option<Vec<Vec<Vec<u8>>>>,
    received: Vec<Vec<String>>,
}

fn read_line(buf: &[u8], pos: &mut usize) -> String {
    let start = *pos;
    while buf[*pos] != b'\r' {
        *pos += 1;
    }
    let line = String::from_utf8(buf[start..*pos].to_vec()).unwrap();
    *pos += 2;
    line
}

fn parse_commands(buf: &[u8]) -> Vec<Vec<Vec<u8>>> {
    let mut commands = Vec::new();
    let mut pos = 0;
    while pos < buf.len() {
        let header = read_line(buf, &mut pos);
        assert!(header.starts_with('*'));
        let count: usize = header[1..].parse().unwrap();
        let mut args = Vec::new();
        for _ in 0..count {
            let size = read_line(buf, &mut pos);
            assert!(size.starts_with('$'));
            let len: usize = size[1..].parse().unwrap();
            args.push(buf[pos..pos + len].to_vec());
            pos += len + 2;
        }
        commands.push(args);
    }
    commands
}

fn text(arg: &[u8]) -> String {
    String::from_utf8(arg.to_vec()).unwrap()
}

fn failure(message: &'static str) -> RedisError {
    RedisError::from((ErrorKind::ResponseError, message))
}

impl MemoryStore {
    fn new() -> MemoryStore {
        MemoryStore { now_ms: 1_000_000, entries: HashMap::new(), queued: None, received: Vec::new() }
    }

    fn advance(&mut self, ms: i64) {
        self.now_ms += ms;
    }

    fn drop_expired(&mut self, key: &[u8]) {
        let gone = match self.entries.get(key) {
            Some((_, Some(deadline))) => *deadline < self.now_ms,
            _ => false,
        };
        if gone {
            self.entries.remove(key);
        }
    }

    fn apply(&mut self, args: &[Vec<u8>]) -> RedisResult<Value> {
        let name = text(&args[0]);
        if args.len() > 1 {
            self.drop_expired(&args[1]);
        }
        match name.as_str() {
            "WATCH" | "UNWATCH" => Ok(Value::Okay),
            "SETNX" => {
                if self.entries.contains_key(&args[1]) {
                    Ok(Value::Int(0))
                } else {
                    let value: i64 = text(&args[2]).parse().unwrap();
                    self.entries.insert(args[1].clone(), (Entry::Counter(value), None));
                    Ok(Value::Int(1))
                }
            }
            "EXPIRE" => {
                let seconds: i64 = text(&args[2]).parse().unwrap();
                let only_if_none = args.len() > 3 && text(&args[3]) == "NX";
                let now = self.now_ms;
                let mut remove = false;
                let reply = match self.entries.get_mut(&args[1]) {
                    Some((_, deadline)) => {
                        if only_if_none && deadline.is_some() {
                            0
                        } else {
                            *deadline = Some(now + seconds * 1000);
                            remove = seconds <= 0;
                            1
                        }
                    }
                    None => 0,
                };
                if remove {
                    self.entries.remove(&args[1]);
                }
                Ok(Value::Int(reply))
            }
            "INCRBY" => {
                let delta: i64 = text(&args[2]).parse().unwrap();
                let entry = self.entries.entry(args[1].clone()).or_insert((Entry::Counter(0), None));
                match &mut entry.0 {
                    Entry::Counter(value) => {
                        *value += delta;
                        Ok(Value::Int(*value))
                    }
                    Entry::Sorted(_) => Err(failure("wrong kind of value")),
                }
            }
            "TTL" => match self.entries.get(&args[1]) {
                None => Ok(Value::Int(-2)),
                Some((_, None)) => Ok(Value::Int(-1)),
                Some((_, Some(deadline))) => Ok(Value::Int((deadline - self.now_ms + 500) / 1000)),
            },
            "ZREMRANGEBYSCORE" => {
                assert_eq!(text(&args[2]), "-inf");
                let bound = text(&args[3]);
                assert!(bound.starts_with('('));
                let below: u64 = bound[1..].parse().unwrap();
                match self.entries.get_mut(&args[1]) {
                    Some((Entry::Sorted(members), _)) => {
                        let before = members.len();
                        members.retain(|(score, _)| *score >= below);
                        let removed = before - members.len();
                        if members.is_empty() {
                            self.entries.remove(&args[1]);
                        }
                        Ok(Value::Int(removed as i64))
                    }
                    Some(_) => Err(failure("wrong kind of value")),
                    None => Ok(Value::Int(0)),
                }
            }
            "ZADD" => {
                assert_eq!(text(&args[2]), "NX");
                let score: u64 = text(&args[3]).parse().unwrap();
                let member = args[4].clone();
                let entry =
                    self.entries.entry(args[1].clone()).or_insert((Entry::Sorted(Vec::new()), None));
                match &mut entry.0 {
                    Entry::Sorted(members) => {
                        if members.iter().any(|(_, m)| *m == member) {
                            Ok(Value::Int(0))
                        } else {
                            members.push((score, member));
                            members.sort();
                            Ok(Value::Int(1))
                        }
                    }
                    Entry::Counter(_) => Err(failure("wrong kind of value")),
                }
            }
            "ZCOUNT" => {
                assert_eq!(text(&args[2]), "-inf");
                assert_eq!(text(&args[3]), "+inf");
                match self.entries.get(&args[1]) {
                    Some((Entry::Sorted(members), _)) => Ok(Value::Int(members.len() as i64)),
                    Some(_) => Err(failure("wrong kind of value")),
                    None => Ok(Value::Int(0)),
                }
            }
            "ZREVRANGEBYSCORE" => {
                assert_eq!(text(&args[2]), "+inf");
                assert_eq!(text(&args[3]), "-inf");
                assert_eq!(text(&args[4]), "LIMIT");
                assert_eq!(text(&args[5]), "0");
                let limit: usize = text(&args[6]).parse().unwrap();
                match self.entries.get(&args[1]) {
                    Some((Entry::Sorted(members), _)) => Ok(Value::Array(
                        members
                            .iter()
                            .rev()
                            .take(limit)
                            .map(|(_, m)| Value::BulkString(m.clone()))
                            .collect(),
                    )),
                    Some(_) => Err(failure("wrong kind of value")),
                    None => Ok(Value::Array(Vec::new())),
                }
            }
            _ => Err(failure("unknown command")),
        }
    }

    fn receive(&mut self, args: Vec<Vec<u8>>) -> RedisResult<Value> {
        let name = text(&args[0]);
        self.received.push(args.iter().map(|a| text(a)).collect());
        if name == "MULTI" {
            self.queued = Some(Vec::new());
            return Ok(Value::Okay);
        }
        if name == "EXEC" {
            let queued = self.queued.take().unwrap();
            let mut replies = Vec::new();
            for command in queued {
                replies.push(self.apply(&command)?);
            }
            return Ok(Value::Array(replies));
        }
        match &mut self.queued {
            Some(queue) => {
                queue.push(args);
                Ok(Value::SimpleString("QUEUED".to_string()))
            }
            None => self.apply(&args),
        }
    }
}

impl ConnectionLike for MemoryStore {
    fn req_packed_command(&mut self, cmd: &[u8]) -> RedisResult<Value> {
        let mut commands = parse_commands(cmd);
        assert_eq!(commands.len(), 1);
        self.receive(commands.remove(0))
    }

    fn req_packed_commands(
        &mut self,
        cmd: &[u8],
        offset: usize,
        count: usize,
    ) -> RedisResult<Vec<Value>> {
        let mut replies = Vec::new();
        for command in parse_commands(cmd) {
            replies.push(self.receive(command)?);
        }
        Ok(replies[offset..offset + count].to_vec())
    }

    fn get_db(&self) -> i64 {
        0
    }

    fn check_connection(&mut self) -> bool {
        true
    }

    fn is_open(&self) -> bool {
        true
    }
}

fn check_token_bucket(
    limiter: &TokenBucketRateLimiter,
    store: &mut MemoryStore,
    identifier: &RequestIdentifier,
) -> Result<RateLimiterResponse, RateLimiterError> {
    let key = limiter.build_request_key(identifier.clone());
    let outcome = redis::transaction(store, &[&key], |con, pipe| {
        limiter.write_commands(pipe, &key);
        pipe.query(con)
    });
    limiter.complete_check(outcome)
}

fn check_fixed_window(
    limiter: &FixedWindowRateLimiter,
    store: &mut MemoryStore,
    identifier: &RequestIdentifier,
) -> Result<RateLimiterResponse, RateLimiterError> {
    let key = limiter.build_request_key(identifier.clone());
    let outcome = redis::transaction(store, &[&key], |con, pipe| {
        limiter.write_commands(pipe, &key);
        pipe.query(con)
    });
    limiter.complete_check(outcome)
}

fn check_sliding_window(
    limiter: &SlidingWindowRateLimiter,
    store: &mut MemoryStore,
    identifier: &RequestIdentifier,
    now: SystemTime,
) -> Result<RateLimiterResponse, RateLimiterError> {
    let key = limiter.build_request_key(identifier.clone());
    let window = limiter.window_at(now)?;
    let outcome = redis::transaction(store, &[&key], |con, pipe| {
        limiter.write_commands(pipe, &key, &window);
        pipe.query(con)
    });
    limiter.complete_check(&window, outcome)
}

fn fresh_ip() -> RequestIdentifier {
    RequestIdentifier::Ip(IpAddress::v4(10, 0, 0, 1))
}

fn other_ip() -> RequestIdentifier {
    RequestIdentifier::Ip(IpAddress::v4(10, 0, 0, 2))
}

fn custom_id() -> RequestIdentifier {
    RequestIdentifier::Custom { key: "a_custom_id".to_string(), value: "4711".to_string() }
}

fn at(seconds: u64, nanos: u64) -> SystemTime {
    SystemTime::UNIX_EPOCH + Duration::from_secs(seconds) + Duration::from_nanos(nanos)
}

fn words(command: &[&str]) -> Vec<String> {
    command.iter().map(|w| w.to_string()).collect()
}

#[test]
fn token_bucket_sends_its_commands_in_one_transaction() {
    let limiter = RateLimiterFactory::token_bucket()
        .with_bucket_size(7)
        .with_bucket_validity(Duration::from_millis(90_500))
        .build()
        .unwrap();
    let mut store = MemoryStore::new();

    check_token_bucket(&limiter, &mut store, &fresh_ip()).unwrap();

    assert_eq!(
        store.received,
        vec![
            words(&["WATCH", "rl:ip_10.0.0.1"]),
            words(&["MULTI"]),
            words(&["SETNX", "rl:ip_10.0.0.1", "7"]),
            words(&["EXPIRE", "rl:ip_10.0.0.1", "90", "NX"]),
            words(&["INCRBY", "rl:ip_10.0.0.1", "-1"]),
            words(&["TTL", "rl:ip_10.0.0.1"]),
            words(&["EXEC"]),
            words(&["UNWATCH"]),
        ]
    );
}

#[test]
fn fixed_window_sends_its_commands_in_one_transaction() {
    let limiter = RateLimiterFactory::fixed_window()
        .with_window_size(3)
        .with_window_duration(Duration::from_secs(15))
        .build()
        .unwrap();
    let mut store = MemoryStore::new();

    check_fixed_window(&limiter, &mut store, &custom_id()).unwrap();

    assert_eq!(
        store.received,
        vec![
            words(&["WATCH", "rl:cst_a_custom_id:4711"]),
            words(&["MULTI"]),
            words(&["SETNX", "rl:cst_a_custom_id:4711", "0"]),
            words(&["EXPIRE", "rl:cst_a_custom_id:4711", "15", "NX"]),
            words(&["INCRBY", "rl:cst_a_custom_id:4711", "1"]),
            words(&["TTL", "rl:cst_a_custom_id:4711"]),
            words(&["EXEC"]),
            words(&["UNWATCH"]),
        ]
    );
}

#[test]
fn sliding_window_sends_its_commands_in_one_transaction() {
    let limiter = RateLimiterFactory::sliding_window()
        .with_window_size(5)
        .with_window_duration(Duration::from_secs(60))
        .build()
        .unwrap();
    let mut store = MemoryStore::new();

    check_sliding_window(&limiter, &mut store, &fresh_ip(), at(1_674_324_083, 380_245_000))
        .unwrap();

    assert_eq!(
        store.received,
        vec![
            words(&["WATCH", "rl:ip_10.0.0.1"]),
            words(&["MULTI"]),
            words(&["ZREMRANGEBYSCORE", "rl:ip_10.0.0.1", "-inf", "(1674324023380245000"]),
            words(&["ZADD", "rl:ip_10.0.0.1", "NX", "1674324083380245000", "1674324083380245000"]),
            words(&["ZCOUNT", "rl:ip_10.0.0.1", "-inf", "+inf"]),
            words(&["ZREVRANGEBYSCORE", "rl:ip_10.0.0.1", "+inf", "-inf", "LIMIT", "0", "5"]),
            words(&["EXPIRE", "rl:ip_10.0.0.1", "60"]),
            words(&["EXEC"]),
            words(&["UNWATCH"]),
        ]
    );
}

#[test]
fn token_bucket_admits_five_then_throttles() {
    let limiter = RateLimiterFactory::token_bucket()
        .with_bucket_size(5)
        .with_bucket_validity(Duration::from_secs(60))
        .build()
        .unwrap();
    let mut store = MemoryStore::new();
    let ip = fresh_ip();

    for n in 1..=5u64 {
        let allowed = check_token_bucket(&limiter, &mut store, &ip).unwrap().as_allowed();
        assert_eq!(allowed.remaining_request_counter, 5 - n);
        store.advance(1_000);
    }
    let throttled = check_token_bucket(&limiter, &mut store, &ip).unwrap().as_throttled();
    assert_eq!(throttled.retry_in, Duration::from_secs(55));
    for _ in 0..4 {
        store.advance(1_000);
        let throttled = check_token_bucket(&limiter, &mut store, &ip).unwrap().as_throttled();
        let secs = throttled.retry_in.as_secs();
        assert!(secs > 0 && secs <= 60);
    }
}

#[test]
fn token_bucket_first_throttle_is_within_tolerance_of_the_validity() {
    let limiter = RateLimiterFactory::token_bucket()
        .with_bucket_size(5)
        .with_bucket_validity(Duration::from_secs(60))
        .build()
        .unwrap();
    let mut store = MemoryStore::new();
    let ip = fresh_ip();

    for _ in 0..5 {
        check_token_bucket(&limiter, &mut store, &ip).unwrap().as_allowed();
    }
    let throttled = check_token_bucket(&limiter, &mut store, &ip).unwrap().as_throttled();
    assert!(60 - throttled.retry_in.as_secs() <= 60 * 5 / 100);
}

#[test]
fn token_bucket_starts_a_full_bucket_after_expiry() {
    let limiter = RateLimiterFactory::token_bucket()
        .with_bucket_size(2)
        .with_bucket_validity(Duration::from_secs(10))
        .build()
        .unwrap();
    let mut store = MemoryStore::new();
    let ip = fresh_ip();

    assert_eq!(check_token_bucket(&limiter, &mut store, &ip).unwrap().as_allowed().remaining_request_counter, 1);
    assert_eq!(check_token_bucket(&limiter, &mut store, &ip).unwrap().as_allowed().remaining_request_counter, 0);
    check_token_bucket(&limiter, &mut store, &ip).unwrap().as_throttled();
    store.advance(10_000);
    check_token_bucket(&limiter, &mut store, &ip).unwrap().as_throttled();
    store.advance(1);
    assert_eq!(check_token_bucket(&limiter, &mut store, &ip).unwrap().as_allowed().remaining_request_counter, 1);
}

#[test]
fn fixed_window_admits_five_throttles_and_recovers_after_expiry() {
    let limiter = RateLimiterFactory::fixed_window()
        .with_window_size(5)
        .with_window_duration(Duration::from_secs(60))
        .build()
        .unwrap();
    let mut store = MemoryStore::new();
    let ip = fresh_ip();

    for n in 1..=5u64 {
        let allowed = check_fixed_window(&limiter, &mut store, &ip).unwrap().as_allowed();
        assert_eq!(allowed.remaining_request_counter, 5 - n);
        store.advance(2_000);
    }
    let throttled = check_fixed_window(&limiter, &mut store, &ip).unwrap().as_throttled();
    assert_eq!(throttled.retry_in, Duration::from_secs(50));
    assert!(throttled.retry_in <= Duration::from_secs(60));
    store.advance(50_001);
    let allowed = check_fixed_window(&limiter, &mut store, &ip).unwrap().as_allowed();
    assert_eq!(allowed.remaining_request_counter, 4);
}

#[test]
fn fixed_window_first_throttle_is_within_tolerance_of_the_window() {
    let limiter = RateLimiterFactory::fixed_window()
        .with_window_size(5)
        .with_window_duration(Duration::from_secs(60))
        .build()
        .unwrap();
    let mut store = MemoryStore::new();
    let id = custom_id();

    for n in 1..=10u64 {
        let res = check_fixed_window(&limiter, &mut store, &id).unwrap();
        if n <= 5 {
            assert_eq!(res.as_allowed().remaining_request_counter, 5 - n);
        } else {
            let retry_in_secs = res.as_throttled().retry_in.as_secs();
            assert!(retry_in_secs > 0 && retry_in_secs <= 60);
            assert!(60 - retry_in_secs <= 60 * 5 / 100);
        }
    }
}

#[test]
fn sliding_window_admits_five_throttles_and_slides() {
    let limiter = RateLimiterFactory::sliding_window()
        .with_window_size(5)
        .with_window_duration(Duration::from_secs(60))
        .build()
        .unwrap();
    let mut store = MemoryStore::new();
    let ip = fresh_ip();
    let start = 1_700_000_000u64;

    for n in 1..=5u64 {
        let res = check_sliding_window(&limiter, &mut store, &ip, at(start + n, 0)).unwrap();
        assert_eq!(res.as_allowed().remaining_request_counter, 5 - n);
    }
    // The sixth request is recorded too, and the newest five reach back to the second one.
    let throttled =
        check_sliding_window(&limiter, &mut store, &ip, at(start + 6, 0)).unwrap().as_throttled();
    assert_eq!(throttled.retry_in, Duration::from_secs(56));

    // At the very end of that wait the second request still counts.
    check_sliding_window(&limiter, &mut store, &ip, at(start + 62, 0)).unwrap().as_throttled();
}

#[test]
fn sliding_window_frees_one_request_when_the_oldest_slide_out() {
    let limiter = RateLimiterFactory::sliding_window()
        .with_window_size(5)
        .with_window_duration(Duration::from_secs(60))
        .build()
        .unwrap();
    let mut store = MemoryStore::new();
    let ip = fresh_ip();
    let start = 1_700_000_000u64;

    for n in 1..=5u64 {
        check_sliding_window(&limiter, &mut store, &ip, at(start + 10 * n, 0)).unwrap().as_allowed();
    }
    // Just after the first request has left the window there is room for exactly one more.
    let allowed = check_sliding_window(&limiter, &mut store, &ip, at(start + 70, 1))
        .unwrap()
        .as_allowed();
    assert_eq!(allowed.remaining_request_counter, 0);
    let throttled = check_sliding_window(&limiter, &mut store, &ip, at(start + 70, 2))
        .unwrap()
        .as_throttled();
    assert_eq!(throttled.retry_in, Duration::from_nanos(60_000_000_000 - 40_000_000_002));
}

#[test]
fn sliding_window_first_throttle_is_within_tolerance_of_the_window() {
    let limiter = RateLimiterFactory::sliding_window()
        .with_window_size(5)
        .with_window_duration(Duration::from_secs(60))
        .build()
        .unwrap();
    let mut store = MemoryStore::new();
    let id = custom_id();
    let start = 1_700_000_000u64;

    for n in 1..=10u64 {
        let res =
            check_sliding_window(&limiter, &mut store, &id, at(start, 1_000_000 * n)).unwrap();
        if n <= 5 {
            assert_eq!(res.as_allowed().remaining_request_counter, 5 - n);
        } else {
            let retry_in = res.as_throttled().retry_in;
            assert!(retry_in > Duration::ZERO && retry_in <= Duration::from_secs(60));
            assert!(60 - retry_in.as_secs() <= 60 * 5 / 100);
        }
    }
}

#[test]
fn throttling_one_identity_does_not_throttle_another() {
    let limiter = RateLimiterFactory::token_bucket().with_bucket_size(2).build().unwrap();
    let mut store = MemoryStore::new();

    check_token_bucket(&limiter, &mut store, &fresh_ip()).unwrap().as_allowed();
    check_token_bucket(&limiter, &mut store, &fresh_ip()).unwrap().as_allowed();
    check_token_bucket(&limiter, &mut store, &fresh_ip()).unwrap().as_throttled();

    let other = check_token_bucket(&limiter, &mut store, &other_ip()).unwrap().as_allowed();
    assert_eq!(other.remaining_request_counter, 1);
    let custom = check_token_bucket(&limiter, &mut store, &custom_id()).unwrap().as_allowed();
    assert_eq!(custom.remaining_request_counter, 1);
}

#[test]
fn interleaved_callers_get_exactly_the_limit() {
    let limiter = RateLimiterFactory::fixed_window().with_window_size(5).build().unwrap();
    let mut store = MemoryStore::new();
    let callers = [fresh_ip(), other_ip(), fresh_ip(), fresh_ip(), other_ip(), fresh_ip(),
        fresh_ip(), fresh_ip(), other_ip(), fresh_ip(), fresh_ip()];

    let mut admitted = 0;
    for caller in callers.iter() {
        let res = check_fixed_window(&limiter, &mut store, caller).unwrap();
        let first = matches!(caller, RequestIdentifier::Ip(IpAddress::V4([10, 0, 0, 1])));
        if first && matches!(res, RateLimiterResponse::RequestAllowed(_)) {
            admitted += 1;
        }
    }
    assert_eq!(admitted, 5);
}

#[test]
fn a_failing_store_surfaces_as_io_error() {
    let limiter = RateLimiterFactory::token_bucket().build().unwrap();
    let mut store = MemoryStore::new();
    store.entries.insert(b"rl:ip_10.0.0.1".to_vec(), (Entry::Sorted(Vec::new()), None));

    let res = check_token_bucket(&limiter, &mut store, &fresh_ip());

    assert!(matches!(res, Err(RateLimiterError::IoError(_))));
}
