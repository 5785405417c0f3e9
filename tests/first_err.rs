use core::cell::{Cell, RefCell};

use first_err::{FirstErr, FirstErrIter};

/// Reads a borrowed adapter as a std iterator.
struct Yields<'a, I, T, E>(&'a mut FirstErrIter<I, T, E>)
where
    I: Iterator<Item = Result<T, E>>;

impl<'a, I, T, E> Iterator for Yields<'a, I, T, E>
where
    I: Iterator<Item = Result<T, E>>,
{
    type Item = T;

    fn next(&mut self) -> Option<T> {
        self.0.next()
    }
}

#[derive(Debug, Clone, Copy, PartialEq, Eq)]
enum Trace {
    Empty,
    Outer(Result<u8, u8>),
    Inner(u8),
}

// if index >= N, it will panic.
fn record_trace<const N: usize>(traces: &RefCell<[Trace; N]>, idx: &Cell<usize>, v: Trace) {
    let i = idx.get();
    traces.borrow_mut()[i] = v;
    idx.set(i + 1);
}

struct NonFusedIter {
    curr: u32,
}

impl NonFusedIter {
    fn new() -> Self {
        Self { curr: 0 }
    }
}

impl Iterator for NonFusedIter {
    type Item = Result<u32, u32>;

    fn next(&mut self) -> Option<Self::Item> {
        let tmp = self.curr;
        self.curr += 1;

        match tmp % 3 {
            0 => Some(Ok(tmp)),
            1 => None,
            2 => Some(Err(tmp)),
            _ => unreachable!(),
        }
    }
}

fn take_dyn(iter: &mut dyn Iterator<Item = Result<u8, u8>>) {
    iter.first_err_or_else(|iter| Yields(iter).sum::<u8>()).ok();
    iter.first_err_or(0).ok();
    iter.first_err_or_try(|iter| Ok(Yields(iter).sum::<u8>())).ok();
}

#[test]
fn _or_else_with_1_layer_data_and_without_err() {
    let ans = [Ok::<u8, u8>(0), Ok(1), Ok(2), Ok(3), Ok(4)]
        .into_iter()
        .first_err_or_else(|iter1| Yields(iter1).sum::<u8>());

    assert_eq!(ans, Ok(10));
}

#[test]
fn _or_else_with_1_layer_data_and_with_err() {
    let ans = [Ok::<u8, u8>(0), Ok(1), Err(2), Ok(3), Ok(4)]
        .into_iter()
        .first_err_or_else(|iter1| Yields(iter1).sum::<u8>());

    assert_eq!(ans, Err(2));
}

#[test]
fn _or_else_with_2_layer_data_and_outmost_err_in_layer_1() {
    let ans = [
        Ok::<Result<u8, u8>, u8>(Ok(0)),
        Ok(Err(1)),
        Err(2),
        Ok(Ok(3)),
        Ok(Ok(4)),
    ]
    .into_iter()
    .first_err_or_else(|iter1| {
        Yields(iter1)
            .map(|x| x)
            .first_err_or_else(|iter2| Yields(iter2).sum::<u8>())
    });

    assert_eq!(ans, Err(2));
}

#[test]
fn _or_else_with_2_layer_data_and_outmost_err_in_layer_2() {
    let ans = [
        Ok::<Result<u8, u8>, u8>(Ok(0)),
        Ok(Ok(1)),
        Ok(Err(2)),
        Ok(Err(3)),
        Ok(Ok(4)),
    ]
    .into_iter()
    .first_err_or_else(|iter1| {
        Yields(iter1)
            .map(|x| x)
            .first_err_or_else(|iter2| Yields(iter2).sum::<u8>())
    });

    assert_eq!(ans, Ok(Err(2)));
}

#[test]
fn _or_else_with_3_layer_data_and_outmost_err_in_layer_2() {
    let ans = [
        Ok::<Result<Result<u8, u8>, u8>, u8>(Ok(Ok(0))),
        Ok(Ok(Ok(1))),
        Ok(Ok(Err(2))),
        Ok(Err(3)),
        Ok(Ok(Ok(4))),
    ]
    .into_iter()
    .first_err_or_else(|iter1| {
        Yields(iter1).map(|x| x).first_err_or_else(|iter2| {
            Yields(iter2)
                .map(|x| x)
                .first_err_or_else(|iter3| Yields(iter3).sum::<u8>())
        })
    });

    assert_eq!(ans, Ok(Err(3)));
}

#[test]
fn _or_else_not_need_to_consume_iter_manually() {
    let ans = [Ok::<u8, u8>(0), Err(1), Err(2)]
        .into_iter()
        .first_err_or_else(|_iter| {});

    assert_eq!(ans, Err(1));
}

#[test]
fn _or_else_never_call_next_on_orig_iter_after_first_err_found() {
    let mut orig_iter_next_count = 0;

    [Ok::<u8, u8>(0), Err(1), Err(2)]
        .into_iter()
        .inspect(|_| orig_iter_next_count += 1)
        .first_err_or_else(|iter| {
            // exhaust whole iter.
            for _ in Yields(&mut *iter) {}

            // call iter.next() after the iter already exhausted.
            assert_eq!(iter.next(), None);
        })
        .ok();

    assert_eq!(orig_iter_next_count, 2);
}

#[test]
fn _or_else_use_lazy_evaluation() {
    let traces = RefCell::new([Trace::Empty; 5]);

    let index = Cell::new(0);

    let ans = [Ok::<u8, u8>(0), Ok(1), Err(2), Ok(3)]
        .iter()
        .cloned()
        // record value from outer
        .inspect(|&res| record_trace(&traces, &index, Trace::Outer(res)))
        .first_err_or_else(|iter| {
            Yields(iter)
                // record value from inner
                .inspect(|&n| record_trace(&traces, &index, Trace::Inner(n)))
                .sum::<u8>()
        });

    assert_eq!(ans, Err(2));
    assert_eq!(
        traces.into_inner(),
        [
            Trace::Outer(Ok(0)),
            Trace::Inner(0),
            Trace::Outer(Ok(1)),
            Trace::Inner(1),
            Trace::Outer(Err(2))
        ]
    );
}

#[test]
fn _or_else_with_non_fused_iterator() {
    let ans = NonFusedIter::new().first_err_or_else(|iter| Yields(iter).sum::<u32>());

    assert_eq!(ans, Ok(0));
}

#[test]
fn _or_without_err() {
    let ans = [Ok::<u8, u8>(0), Ok(1), Ok(2), Ok(3), Ok(4)]
        .into_iter()
        .first_err_or("no err");

    assert_eq!(ans, Ok("no err"));
}

#[test]
fn _or_with_err() {
    let ans = [Ok::<u8, u8>(0), Ok(1), Err(2), Ok(3), Ok(4)]
        .into_iter()
        .first_err_or("no err");

    assert_eq!(ans, Err(2));
}

#[test]
fn _or_try_without_err_and_closure_produce_ok() {
    let ans = [Ok::<u8, u8>(0), Ok(1), Ok(2), Ok(3), Ok(4)]
        .into_iter()
        .first_err_or_try(|iter| Yields(iter).nth(1).ok_or(1));

    assert_eq!(ans, Ok(1));
}

#[test]
fn _or_try_without_err_and_closure_produce_err() {
    let ans = [Ok::<u8, u8>(0), Ok(1), Ok(2), Ok(3), Ok(4)]
        .into_iter()
        .first_err_or_try(|iter| Yields(iter).nth(100).ok_or(100));

    assert_eq!(ans, Err(100));
}

#[test]
fn _or_try_with_err_and_closure_produce_ok() {
    let ans = [Ok::<u8, u8>(0), Ok(1), Err(2), Ok(3), Ok(4)]
        .into_iter()
        .first_err_or_try(|iter| Yields(iter).nth(1).ok_or(1));

    assert_eq!(ans, Err(2));
}

#[test]
fn _or_try_with_err_and_closure_produce_err() {
    let ans = [Ok::<u8, u8>(0), Ok(1), Err(2), Ok(3), Ok(4)]
        .into_iter()
        .first_err_or_try(|iter| Yields(iter).nth(100).ok_or(100));

    assert_eq!(ans, Err(2));
}

#[test]
fn _methods_can_call_through_trait_object() {
    let mut array_iter = [Ok::<u8, u8>(0), Err(1), Err(2)].into_iter();

    take_dyn(&mut array_iter);
}

#[test]
fn err_empty_source_gives_the_output() {
    let ans = Vec::<Result<u8, u8>>::new()
        .into_iter()
        .first_err_or_else(|iter| Yields(iter).count());

    assert_eq!(ans, Ok(0));
}

#[test]
fn err_scenario_sums_all_successes() {
    let ans = vec![Ok::<u8, u8>(0), Ok(1), Ok(2)]
        .into_iter()
        .first_err_or_else(|iter| Yields(iter).sum::<u8>());

    assert_eq!(ans, Ok(3));
}

#[test]
fn err_scenario_sum_stops_at_failure() {
    let ans = vec![Ok::<u8, u8>(0), Ok(1), Err(2), Ok(3)]
        .into_iter()
        .first_err_or_else(|iter| Yields(iter).sum::<u8>());

    assert_eq!(ans, Err(2));
}

#[test]
fn err_scenario_ignored_adapter_gives_first_failure() {
    let ans = vec![Ok::<u8, u8>(0), Err(1), Err(2)]
        .into_iter()
        .first_err_or_else(|_| ());

    assert_eq!(ans, Err(1));
}

#[test]
fn err_adapter_sees_every_success_in_order() {
    let ans = vec![Ok::<u8, u8>(4), Ok(7), Ok(1)]
        .into_iter()
        .first_err_or_else(|iter| Yields(iter).collect::<Vec<u8>>());

    assert_eq!(ans, Ok(vec![4, 7, 1]));
}

#[test]
fn err_adapter_yields_prefix_before_failure() {
    let ans = vec![Ok::<u8, u8>(4), Ok(7), Err(9), Ok(1)]
        .into_iter()
        .first_err_or_else(|iter| {
            let seen = Yields(&mut *iter).collect::<Vec<u8>>();
            assert_eq!(seen, vec![4, 7]);
            seen.len()
        });

    assert_eq!(ans, Err(9));
}

#[test]
fn err_failure_after_early_stop_is_found_by_drain() {
    let mut pulls = 0;
    let ans = vec![Ok::<u8, u8>(1), Ok(2), Err(7), Err(8), Ok(3)]
        .into_iter()
        .inspect(|_| pulls += 1)
        .first_err_or_else(|iter| iter.next());

    assert_eq!(ans, Err(7));
    assert_eq!(pulls, 3);
}

#[test]
fn err_drain_reads_whole_source_without_failure() {
    let mut pulls = 0;
    let ans = vec![Ok::<u8, u8>(1), Ok(2), Ok(3)]
        .into_iter()
        .inspect(|_| pulls += 1)
        .first_err_or_else(|iter| iter.next());

    assert_eq!(ans, Ok(Some(1)));
    assert_eq!(pulls, 3);
}

#[test]
fn err_adapter_stays_inert_after_failure() {
    let mut pulls = 0;
    let ans = vec![Err::<u8, u8>(5), Ok(1), Ok(2)]
        .into_iter()
        .inspect(|_| pulls += 1)
        .first_err_or_else(|iter| {
            let first = iter.next();
            let second = iter.next();
            let third = iter.next();
            (first, second, third)
        });

    assert_eq!(ans, Err(5));
    assert_eq!(pulls, 1);
}

#[test]
fn err_adapter_stays_inert_over_non_fused_source() {
    let ans = NonFusedIter::new().first_err_or_else(|iter| {
        let first = iter.next();
        let second = iter.next();
        let third = iter.next();
        (first, second, third)
    });

    assert_eq!(ans, Ok((Some(0), None, None)));
}

#[test]
fn err_try_prefers_source_failure_over_own_failure() {
    let ans = vec![Ok::<u8, u8>(1), Err(2)]
        .into_iter()
        .first_err_or_try(|_| Err::<u8, u8>(50));

    assert_eq!(ans, Err(2));
}

#[test]
fn err_or_on_empty_source() {
    let ans = Vec::<Result<u8, u8>>::new().into_iter().first_err_or(9u32);

    assert_eq!(ans, Ok(9));
}

#[test]
fn err_nested_outer_failure_wins_over_earlier_inner_failure() {
    let ans = vec![
        Ok::<Result<u8, u8>, u8>(Ok(0)),
        Ok(Err(1)),
        Err(2),
        Ok(Ok(3)),
    ]
    .into_iter()
    .first_err_or_else(|iter1| {
        Yields(iter1)
            .map(|x| x)
            .first_err_or_else(|iter2| Yields(iter2).sum::<u8>())
    });

    assert_eq!(ans, Err(2));
}
