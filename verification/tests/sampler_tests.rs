use memwalk::record::Record;
use memwalk::sampler::Sampler;
use memwalk::sampler::SamplerEvent;
use memwalk::sampler::StrideTrial;
use memwalk::schedule::effective_max_step_size;
use memwalk::schedule::step_sizes;
use memwalk::walk::walk_through;
use memwalk::walk::Draw;
use rand::rngs::StdRng;
use rand::Rng;
use rand::SeedableRng;
use std::time::Duration;

fn run_to_end(buffer: &Vec<u8>, step_size: usize, iterations: usize) -> (StrideTrial, Vec<usize>) {
    run_seeded(buffer, step_size, iterations, 2024)
}

fn run_seeded(buffer: &Vec<u8>, step_size: usize, iterations: usize, seed: u64) -> (StrideTrial, Vec<usize>) {
    let mut rng = StdRng::seed_from_u64(seed);
    let mut sampler = Sampler::start(buffer, step_size, iterations);
    let mut refreshed = Vec::new();
    loop {
        match sampler.run(&mut rng) {
            SamplerEvent::Refresh { steps, elapsed_nanos: _ } => {
                assert_eq!(sampler.steps_done(), steps + 1);
                refreshed.push(steps);
            }
            SamplerEvent::Finished(trial) => {
                assert_eq!(sampler.steps_done(), iterations);
                return (trial, refreshed);
            }
        }
    }
}

#[test]
fn trial_runs_exactly_the_iterations_asked_for() {
    let buffer: Vec<u8> = vec![1; 64];
    let (trial, refreshed) = run_to_end(&buffer, 8, 100);
    assert_eq!(trial.step_size, 8);
    assert_eq!(trial.iterations, 100);
    // every byte is 1, so the checksum counts the reads
    assert_eq!(trial.checksum, 100);
    assert!(refreshed.is_empty());
}

#[test]
fn checksum_counts_every_read() {
    let buffer: Vec<u8> = vec![1; 16];
    let (trial, _) = run_to_end(&buffer, 1000, 2600);
    assert_eq!(trial.checksum, (2600 % 256) as u8);
}

#[test]
fn trial_of_no_iterations_finishes_at_once() {
    let buffer: Vec<u8> = vec![5];
    let (trial, refreshed) = run_to_end(&buffer, 1, 0);
    assert_eq!(trial.iterations, 0);
    assert_eq!(trial.checksum, 0);
    assert!(refreshed.is_empty());
}

#[test]
fn first_refresh_of_a_trial_comes_at_the_first_checkpoint() {
    let buffer: Vec<u8> = vec![3; 128];
    let (trial, refreshed) = run_to_end(&buffer, 16, 2500);
    assert_eq!(trial.iterations, 2500);
    assert_eq!(refreshed[0], 999);
    for steps in &refreshed {
        assert_eq!(steps % 1000, 999);
    }
}

#[test]
fn three_records_for_strides_one_two_four() {
    let buffer: Vec<u8> = (0..1024usize).map(|i| (i % 251) as u8).collect();
    let max = effective_max_step_size(Some(4), buffer.len());
    let mut records = Vec::new();
    for step_size in step_sizes(1, max) {
        let (trial, _) = run_to_end(&buffer, step_size, 100);
        let secs = Duration::new(
            (trial.elapsed_nanos / 1_000_000_000) as u64,
            (trial.elapsed_nanos % 1_000_000_000) as u32,
        )
        .as_secs_f32();
        let rate = trial.iterations as f32 / secs;
        records.push(Record::of_trial(&trial, 1_700_000_000_000, rate.to_bits()));
    }
    assert_eq!(records.len(), 3);
    assert_eq!(records[0].step_size, 1);
    assert_eq!(records[1].step_size, 2);
    assert_eq!(records[2].step_size, 4);
    for record in &records {
        assert!(f32::from_bits(record.steps_per_second_bits) > 0.0);
        assert!(record.total_duration_millis < 20_000);
    }
}

#[test]
fn trial_walks_over_the_draws_of_its_generator() {
    let buffer: Vec<u8> = (0..=255u8).chain(0..100u8).collect();
    for (step_size, iterations, seed) in [(1usize, 10usize, 1u64), (7, 1500, 99), (300, 3000, 5), (usize::MAX, 257, 0)] {
        let (trial, _) = run_seeded(&buffer, step_size, iterations, seed);
        let mut rng = StdRng::seed_from_u64(seed);
        let mut draws = Vec::new();
        for _ in 0..iterations {
            let raw: usize = rng.gen();
            let forward: bool = rng.gen();
            draws.push(Draw { raw, forward });
        }
        let walk = walk_through(&buffer, step_size, &draws);
        assert_eq!(trial.checksum, walk.checksum);
        assert_eq!(trial.iterations, walk.steps);
        assert_eq!(trial.step_size, step_size);
    }
}

#[test]
fn same_seed_gives_the_same_trial() {
    let buffer: Vec<u8> = (0..200u8).collect();
    let (first, _) = run_seeded(&buffer, 64, 5000, 31);
    let (second, _) = run_seeded(&buffer, 64, 5000, 31);
    assert_eq!(first.checksum, second.checksum);
    let sums: Vec<u8> = (0..8u64).map(|seed| run_seeded(&buffer, 64, 5000, seed).0.checksum).collect();
    assert!(sums.iter().any(|sum| *sum != sums[0]));
}

#[test]
fn empty_buffer_is_fine_where_no_iteration_runs() {
    let buffer: Vec<u8> = Vec::new();
    let mut rng = StdRng::seed_from_u64(3);
    let mut sampler = Sampler::start(&buffer, 4, 0);
    assert_eq!(sampler.steps_done(), 0);
    match sampler.run(&mut rng) {
        SamplerEvent::Finished(trial) => {
            assert_eq!(trial.step_size, 4);
            assert_eq!(trial.iterations, 0);
            assert_eq!(trial.checksum, 0);
        }
        SamplerEvent::Refresh { .. } => panic!("no iteration was asked for"),
    }
}
