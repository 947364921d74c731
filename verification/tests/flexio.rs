use embassy_mcxa::flexio::config::{ShifterConfig, TimerConfig, TimerTrigger};
use embassy_mcxa::flexio::fields::{
    Insrc, ShiftctlPincfg, ShiftctlPinpol, Shiftcfg, Shiftctl, Smod, Sstart, Sstop, Timcfg, Timctl,
    TimctlPincfg, TimctlPinpol, Timdec, Timdis, Timena, Timod, Timout, Timpol, Timrst, Trgpol,
    Trgsrc, Tstop,
};
use embassy_mcxa::flexio::keeper::ClockKeeper;
use embassy_mcxa::flexio::ops::{DmaOp, DmaRequest, FlexioOp, FlexioReg, Mux, PinOp, Pull};
use embassy_mcxa::flexio::peripheral::{
    Flexio, Instance, ShifterCluster, TimerCluster, FLEXIO0,
};
use embassy_mcxa::flexio::pin::FlexioPin;
use embassy_mcxa::flexio::uart_tx::{
    FlexioUartTx, FlushStage, TxDmaGuard, UartStage, CHUNK_WORDS, STEP_OPS,
};
use embassy_mcxa::flexio::unit::{Shifter, Timer};
use embassy_mcxa::mask::modified;
use embassy_mcxa::progress::Progress;

fn clusters() -> (ShifterCluster<'static>, TimerCluster<'static>) {
    let mut ops = Vec::new();
    let flexio: Result<Flexio<'static, FLEXIO0>, ()> = Flexio::new(Ok(()), &mut ops);
    flexio.unwrap().split()
}

fn units() -> (Shifter<'static, 0>, Timer<'static, 0>) {
    let (mut shifters, mut timers) = clusters();
    (shifters.take::<0>().unwrap(), timers.take::<0>().unwrap())
}

struct Pad;

impl FlexioPin<FLEXIO0, 28> for Pad {
    const MUX: Mux = Mux { alt: 6 };
}

#[test]
fn instance_has_four_units() {
    assert_eq!(FLEXIO0::SHIFTER_COUNT, 4);
    assert_eq!(FLEXIO0::TIMER_COUNT, 4);
}

#[test]
fn claim_resets_and_enables() {
    let mut ops = Vec::new();
    let flexio: Result<Flexio<'static, FLEXIO0>, u8> = Flexio::new(Ok(()), &mut ops);
    assert_eq!(
        ops,
        vec![
            FlexioOp::WriteReset(true),
            FlexioOp::WriteReset(false),
            FlexioOp::SetEnabled(true),
        ]
    );
    ops.clear();
    flexio.ok().unwrap().release(&mut ops);
    assert_eq!(ops, vec![FlexioOp::SetEnabled(false), FlexioOp::DisableClock]);
}

#[test]
fn claim_fails_with_the_clock() {
    let mut ops = Vec::new();
    let flexio: Result<Flexio<'static, FLEXIO0>, u8> = Flexio::new(Err(3), &mut ops);
    assert_eq!(flexio.err(), Some(3));
    assert!(ops.is_empty());
}

#[test]
fn units_are_taken_once() {
    let (mut shifters, mut timers) = clusters();
    assert!(shifters.take::<2>().is_some());
    assert!(shifters.take::<2>().is_none());
    assert!(shifters.take::<0>().is_some());
    assert!(shifters.take::<1>().is_some());
    assert!(shifters.take::<3>().is_some());
    assert!(shifters.take::<0>().is_none());
    assert!(timers.take::<2>().is_some());
    assert!(timers.take::<3>().is_some());
    assert!(timers.take::<3>().is_none());
}

const SWITCHED_OFF: [FlexioOp; 2] = [FlexioOp::SetEnabled(false), FlexioOp::DisableClock];

#[test]
fn clock_runs_until_the_last_unit_is_back() {
    let (mut shifters, mut timers) = clusters();
    let shifter = shifters.take::<2>().unwrap();
    let timer = timers.take::<3>().unwrap();
    let mut keeper = ClockKeeper::new();
    let mut ops = Vec::new();
    keeper.give_shifters(shifters, &mut ops);
    keeper.give_timer(timer, &mut ops);
    keeper.give_timers(timers, &mut ops);
    assert!(ops.is_empty());
    assert!(!keeper.is_complete());
    keeper.give_shifter(shifter, &mut ops);
    assert_eq!(ops, SWITCHED_OFF);
    assert!(keeper.is_complete());
}

#[test]
fn clock_runs_until_the_last_cluster_is_back() {
    let (mut shifters, timers) = clusters();
    let mut keeper = ClockKeeper::new();
    let mut ops = Vec::new();
    let shifter = shifters.take::<0>().unwrap();
    keeper.give_shifter(shifter, &mut ops);
    // A unit that was given back stays taken.
    assert!(shifters.take::<0>().is_none());
    keeper.give_timers(timers, &mut ops);
    assert!(ops.is_empty());
    let other = shifters.take::<1>().unwrap();
    keeper.give_shifters(shifters, &mut ops);
    assert!(ops.is_empty());
    keeper.give_shifter(other, &mut ops);
    assert_eq!(ops, SWITCHED_OFF);
    // Nothing more is queued once all is back.
    let (mut shifters, timers) = clusters();
    let foreign = shifters.take::<3>().unwrap();
    keeper.give_shifter(foreign, &mut ops);
    keeper.give_timers(timers, &mut ops);
    keeper.give_shifters(shifters, &mut ops);
    assert_eq!(ops, SWITCHED_OFF);
}

#[test]
fn clock_stops_with_untouched_clusters() {
    let (shifters, timers) = clusters();
    let mut keeper = ClockKeeper::new();
    let mut ops = Vec::new();
    keeper.give_timers(timers, &mut ops);
    assert!(ops.is_empty());
    keeper.give_shifters(shifters, &mut ops);
    assert_eq!(ops, SWITCHED_OFF);
}

#[test]
fn transmitter_gives_its_units_back() {
    let (mut shifters, mut timers) = clusters();
    let mut ops = Vec::new();
    let uart = FlexioUartTx::new(
        shifters.take::<0>().unwrap(),
        timers.take::<0>().unwrap(),
        &Pad,
        &mut ops,
        115_200,
        24_000_000,
    );
    ops.clear();
    let mut keeper = ClockKeeper::new();
    keeper.give_shifters(shifters, &mut ops);
    keeper.give_timers(timers, &mut ops);
    assert!(ops.is_empty());
    uart.release(&mut keeper, &mut ops);
    assert_eq!(ops, SWITCHED_OFF);
}

#[test]
fn default_configurations() {
    let shifter = ShifterConfig::default();
    assert_eq!(shifter.smod, Smod::Disable);
    assert_eq!(shifter.pin_cfg, ShiftctlPincfg::Disable);
    assert_eq!(shifter.timer_pol, Timpol::Posedge);
    assert_eq!(shifter.input_source, Insrc::Pin);
    let timer = TimerConfig::default();
    assert_eq!(timer.timod, Timod::Disable);
    assert_eq!(timer.timena, Timena::Enable);
    assert_eq!(timer.trigger, TimerTrigger::NoTrigger);
    assert_eq!(timer.pin_cfg, TimctlPincfg::Outdisable);
    assert_eq!(timer.compare, 0);
}

#[test]
fn shifter_configuration_order() {
    let (mut shifters, _) = clusters();
    let mut shifter = shifters.take::<3>().unwrap();
    let mut ops = Vec::new();
    let cfg = ShifterConfig {
        smod: Smod::Bits(1),
        pin_select: 12,
        pin_cfg: ShiftctlPincfg::Output,
        pin_pol: ShiftctlPinpol::ActiveLow,
        timer_pol: Timpol::Negedge,
        timer_select: 2,
        start_bit: Sstart::Value10,
        stop_bit: Sstop::Value11,
        input_source: Insrc::Bits(1),
    };
    shifter.set_config(&mut ops, &cfg);
    assert_eq!(
        ops,
        vec![
            FlexioOp::Shiftcfg {
                n: 3,
                value: Shiftcfg {
                    sstart: Sstart::Value10,
                    sstop: Sstop::Value11,
                    insrc: Insrc::Bits(1),
                },
            },
            FlexioOp::Shiftctl {
                n: 3,
                value: Shiftctl {
                    smod: Smod::Bits(1),
                    pinsel: 12,
                    pincfg: ShiftctlPincfg::Output,
                    pinpol: ShiftctlPinpol::ActiveLow,
                    timpol: Timpol::Negedge,
                    timsel: 2,
                },
            },
        ]
    );
}

#[test]
fn shifter_registers() {
    let (mut shifters, _) = clusters();
    let mut shifter = shifters.take::<2>().unwrap();
    let mut ops = Vec::new();
    shifter.write_buffer(&mut ops, 0x1234_5678);
    shifter.write_buffer_bis(&mut ops, 0x9abc_def0);
    assert_eq!(
        ops,
        vec![
            FlexioOp::WriteData { reg: FlexioReg::Shiftbuf(2), data: 0x1234_5678 },
            FlexioOp::WriteData { reg: FlexioReg::Shiftbufbis(2), data: 0x9abc_def0 },
        ]
    );
    assert_eq!(shifter.read_buffer(), FlexioReg::Shiftbuf(2));
    assert_eq!(shifter.read_buffer_bis(), FlexioReg::Shiftbufbis(2));
    assert_eq!(shifter.dma_address(), FlexioReg::Shiftbuf(2));
    assert_eq!(shifter.dma_address_bis(), FlexioReg::Shiftbufbis(2));
}

#[test]
fn dma_requests_are_per_shifter() {
    assert_eq!(Shifter::<0>::dma_request(), DmaRequest::Flexio0Sr0);
    assert_eq!(Shifter::<1>::dma_request(), DmaRequest::Flexio0Sr1);
    assert_eq!(Shifter::<2>::dma_request(), DmaRequest::Flexio0Sr2);
    assert_eq!(Shifter::<3>::dma_request(), DmaRequest::Flexio0Sr3);
    assert_eq!(Shifter::<0>::dma_request().number(), 71);
    assert_eq!(Shifter::<1>::dma_request().number(), 72);
    assert_eq!(Shifter::<2>::dma_request().number(), 73);
    assert_eq!(Shifter::<3>::dma_request().number(), 74);
}

#[test]
fn dma_enable_is_per_shifter() {
    let (mut shifters, _) = clusters();
    let mut shifter = shifters.take::<2>().unwrap();
    let mut ops = Vec::new();
    shifter.enable_dma(&mut ops);
    shifter.disable_dma(&mut ops);
    assert_eq!(
        ops,
        vec![
            FlexioOp::ModifyShiftsden { clear: 0, set: 4 },
            FlexioOp::ModifyShiftsden { clear: 4, set: 0 },
        ]
    );
    assert_eq!(modified(0b1001, 0, 4), 0b1101);
    assert_eq!(modified(0b1101, 4, 0), 0b1001);
}

#[test]
fn status_flags_are_per_unit() {
    let (mut shifters, mut timers) = clusters();
    let mut shifter = shifters.take::<1>().unwrap();
    let mut timer = timers.take::<3>().unwrap();
    assert!(shifter.is_status_set(0b0010));
    assert!(!shifter.is_status_set(0b1101));
    assert!(timer.is_status_set(0b1000));
    assert!(!timer.is_status_set(0b0111));
    let mut ops = Vec::new();
    shifter.clear_status(&mut ops);
    timer.clear_status(&mut ops);
    assert_eq!(ops, vec![FlexioOp::WriteShiftstat(2), FlexioOp::WriteTimstat(8)]);
}

fn trigger_of(trigger: TimerTrigger) -> (Trgsrc, Trgpol, u8) {
    let (_, mut timers) = clusters();
    let mut timer = timers.take::<1>().unwrap();
    let mut ops = Vec::new();
    timer.set_config(&mut ops, &TimerConfig { trigger, ..TimerConfig::default() });
    assert_eq!(ops.len(), 3);
    match ops[2] {
        FlexioOp::Timctl { n: 1, value } => (value.trgsrc, value.trgpol, value.trgsel),
        _ => panic!("TIMCTL must come last"),
    }
}

#[test]
fn trigger_numbers() {
    assert_eq!(
        trigger_of(TimerTrigger::NoTrigger),
        (Trgsrc::ExtTrig, Trgpol::ActiveHigh, 0)
    );
    assert_eq!(
        trigger_of(TimerTrigger::InternalLane { lane: 10, polarity: Trgpol::ActiveLow }),
        (Trgsrc::InternalTrig, Trgpol::ActiveLow, 40)
    );
    assert_eq!(
        trigger_of(TimerTrigger::InternalShifterFlag { shifter: 3, polarity: Trgpol::ActiveHigh }),
        (Trgsrc::InternalTrig, Trgpol::ActiveHigh, 13)
    );
    assert_eq!(
        trigger_of(TimerTrigger::InternalLane { lane: 63, polarity: Trgpol::ActiveLow }),
        (Trgsrc::InternalTrig, Trgpol::ActiveLow, 252)
    );
    assert_eq!(
        trigger_of(TimerTrigger::External { trgsel: 200, polarity: Trgpol::ActiveLow }),
        (Trgsrc::ExtTrig, Trgpol::ActiveLow, 200)
    );
}

#[test]
fn timer_configuration_order() {
    let (_, mut timers) = clusters();
    let mut timer = timers.take::<2>().unwrap();
    let mut ops = Vec::new();
    let cfg = TimerConfig {
        timod: Timod::Single16bit,
        timdec: Timdec::Bits(1),
        timena: Timena::TmrNminus1En,
        timdis: Timdis::TmrCmp,
        timrst: Timrst::Bits(4),
        timout: Timout::Bits(2),
        tstop: Tstop::EnableTmrdisable,
        tstart: true,
        pin_select: 11,
        pin_cfg: TimctlPincfg::Output,
        pin_pol: TimctlPinpol::ActiveLow,
        trigger: TimerTrigger::NoTrigger,
        compare: 159,
    };
    timer.set_config(&mut ops, &cfg);
    assert_eq!(
        ops,
        vec![
            FlexioOp::TimerCompare { n: 2, value: 159 },
            FlexioOp::Timcfg {
                n: 2,
                value: Timcfg {
                    timdec: Timdec::Bits(1),
                    timena: Timena::TmrNminus1En,
                    timdis: Timdis::TmrCmp,
                    timrst: Timrst::Bits(4),
                    timout: Timout::Bits(2),
                    tstop: Tstop::EnableTmrdisable,
                    tstart: true,
                },
            },
            FlexioOp::Timctl {
                n: 2,
                value: Timctl {
                    timod: Timod::Single16bit,
                    pinsel: 11,
                    pincfg: TimctlPincfg::Output,
                    pinpol: TimctlPinpol::ActiveLow,
                    trgsrc: Trgsrc::ExtTrig,
                    trgpol: Trgpol::ActiveHigh,
                    trgsel: 0,
                },
            },
        ]
    );
}

fn compare_for(baud: u32, flexio_clk: u32) -> u16 {
    let (shifter, timer) = units();
    let mut ops = Vec::new();
    FlexioUartTx::new(shifter, timer, &Pad, &mut ops, baud, flexio_clk);
    match ops[3] {
        FlexioOp::TimerCompare { n: 0, value } => value,
        _ => panic!("the timer must be configured after the pad"),
    }
}

#[test]
fn uart_compare_values() {
    // 24 MHz / (2 * 115200) = 104.
    assert_eq!(compare_for(115_200, 24_000_000), 0x1567);
    assert_eq!(compare_for(9_600, 4_915_200), 0x15ff);
    // A divider of zero stays zero; one too large keeps its low byte.
    assert_eq!(compare_for(1_000_000, 1_999_999), 0x1500);
    assert_eq!(compare_for(1_000_000, 2_000_000), 0x1500);
    assert_eq!(compare_for(1_000_000, 4_000_000), 0x1501);
    assert_eq!(compare_for(1_200, 24_000_000), 0x150f);
    // 0x1_0000 is cut to zero.
    assert_eq!(compare_for(1, 0x2_0000), 0x1500);
    assert_eq!(compare_for(0x7fff_ffff, 0xffff_ffff), 0x1500);
}

#[test]
fn uart_setup_sequence() {
    let (shifter, timer) = units();
    let mut ops = Vec::new();
    FlexioUartTx::new(shifter, timer, &Pad, &mut ops, 115_200, 24_000_000);
    assert_eq!(ops.len(), 9);
    assert_eq!(ops[0], FlexioOp::Pin(PinOp::SetPull(Pull::Disabled)));
    assert_eq!(ops[1], FlexioOp::Pin(PinOp::SetFunction(Mux { alt: 6 })));
    assert_eq!(ops[2], FlexioOp::Pin(PinOp::SetInputBuffer(true)));
    assert_eq!(
        ops[5],
        FlexioOp::Timctl {
            n: 0,
            value: Timctl {
                timod: Timod::Dual8bitBaud,
                pinsel: 28,
                pincfg: TimctlPincfg::Outdisable,
                pinpol: TimctlPinpol::ActiveHigh,
                trgsrc: Trgsrc::InternalTrig,
                trgpol: Trgpol::ActiveLow,
                trgsel: 1,
            },
        }
    );
    assert_eq!(
        ops[7],
        FlexioOp::Shiftctl {
            n: 0,
            value: Shiftctl {
                smod: Smod::Transmit,
                pinsel: 28,
                pincfg: ShiftctlPincfg::Output,
                pinpol: ShiftctlPinpol::ActiveHigh,
                timpol: Timpol::Negedge,
                timsel: 0,
            },
        }
    );
    assert_eq!(ops[8], FlexioOp::Dma(DmaOp::EnableInterrupt));
}

/// Sends `data` and returns the words of each transfer.
fn transmit(data: &[u8]) -> Vec<Vec<u32>> {
    let (shifter, timer) = units();
    let mut ops = Vec::new();
    let mut uart = FlexioUartTx::new(shifter, timer, &Pad, &mut ops, 115_200, 24_000_000);
    ops.clear();
    let mut words = [0; CHUNK_WORDS];
    let mut chunks = Vec::new();
    let mut stage = UartStage::Chunk(0);
    let mut polls = 0;
    loop {
        let started = matches!(stage, UartStage::Chunk(_));
        if matches!(stage, UartStage::Registered(_)) {
            polls += 1;
        }
        let done = polls % 2 == 0;
        let progress = uart.write(&mut ops, &mut words, stage, data, done);
        assert!(ops.len() <= STEP_OPS);
        match progress {
            Progress::Again(next) => {
                if started {
                    let count = match (stage, next) {
                        (UartStage::Chunk(from), UartStage::Sending(to)) => to - from,
                        _ => panic!("a chunk must be sent"),
                    };
                    assert_eq!(
                        ops,
                        vec![
                            FlexioOp::Dma(DmaOp::DisableRequest),
                            FlexioOp::Dma(DmaOp::ClearDone),
                            FlexioOp::Dma(DmaOp::ClearInterrupt),
                            FlexioOp::Dma(DmaOp::SetRequestSource(DmaRequest::Flexio0Sr0)),
                            FlexioOp::Dma(DmaOp::SetupWrite {
                                words: count,
                                dest: FlexioReg::Shiftbuf(0),
                            }),
                            FlexioOp::ModifyShiftsden { clear: 0, set: 1 },
                            FlexioOp::Dma(DmaOp::EnableRequest),
                        ]
                    );
                    chunks.push(words[..count].to_vec());
                }
                stage = next;
            }
            Progress::Wait(next) => {
                assert!(ops.is_empty());
                stage = next;
            }
            Progress::Ready(()) => return chunks,
        }
        ops.clear();
    }
}

#[test]
fn uart_words_carry_bytes() {
    assert_eq!(transmit(b"A\xff\0"), vec![vec![0xffff_ff41, 0xffff_ffff, 0xffff_ff00]]);
    assert!(transmit(b"").is_empty());
}

#[test]
fn uart_sends_in_chunks() {
    let data: Vec<u8> = (0..150u32).map(|i| (i * 7) as u8).collect();
    let chunks = transmit(&data);
    let lengths: Vec<usize> = chunks.iter().map(|c| c.len()).collect();
    assert_eq!(lengths, vec![64, 64, 22]);
    let bytes: Vec<u8> = chunks.concat().iter().map(|w| *w as u8).collect();
    assert_eq!(bytes, data);
    assert!(chunks.concat().iter().all(|w| *w >= 0xffff_ff00));
    assert_eq!(transmit(&data[..64]).len(), 1);
    assert_eq!(transmit(&data[..65]).len(), 2);
}

#[test]
fn uart_waits_registered() {
    let (shifter, timer) = units();
    let mut ops = Vec::new();
    let mut uart = FlexioUartTx::new(shifter, timer, &Pad, &mut ops, 115_200, 24_000_000);
    ops.clear();
    let mut words = [5; CHUNK_WORDS];
    let progress = uart.write(&mut ops, &mut words, UartStage::Sending(3), b"abc", false);
    assert_eq!(progress, Progress::Again(UartStage::Registered(3)));
    assert_eq!(ops, vec![FlexioOp::Dma(DmaOp::Register)]);
    ops.clear();
    let progress = uart.write(&mut ops, &mut words, UartStage::Registered(3), b"abc", false);
    assert_eq!(progress, Progress::Wait(UartStage::Sending(3)));
    let progress = uart.write(&mut ops, &mut words, UartStage::Registered(3), b"abc", true);
    assert_eq!(progress, Progress::Again(UartStage::Chunk(3)));
    assert_eq!(ops[0], FlexioOp::ModifyShiftsden { clear: 1, set: 0 });
    assert_eq!(words, [5; CHUNK_WORDS]);
    let progress = uart.write(&mut ops, &mut words, UartStage::Chunk(3), b"abc", false);
    assert_eq!(progress, Progress::Ready(()));
}

#[test]
fn uart_stages_under_way() {
    assert!(!UartStage::Chunk(5).under_way());
    assert!(UartStage::Sending(5).under_way());
    assert!(UartStage::Registered(5).under_way());
}

#[test]
fn uart_flush() {
    let (shifter, timer) = units();
    let mut ops = Vec::new();
    let mut uart = FlexioUartTx::new(shifter, timer, &Pad, &mut ops, 115_200, 24_000_000);
    assert_eq!(
        uart.blocking_flush(FlushStage::Buffer, 0b1110, 9_999),
        Progress::Again(FlushStage::Buffer)
    );
    assert_eq!(
        uart.blocking_flush(FlushStage::Buffer, 0b0001, 0),
        Progress::Again(FlushStage::Line)
    );
    // 26 half bits of 104 clocks.
    assert_eq!(uart.flush_clocks(), 2_704);
    assert_eq!(
        uart.blocking_flush(FlushStage::Line, 0b0001, 2_703),
        Progress::Again(FlushStage::Line)
    );
    assert_eq!(uart.blocking_flush(FlushStage::Line, 0b0001, 2_704), Progress::Ready(()));
}

/// A shifter that takes the word in its buffer when it is through with the one before.
struct Line {
    length: u32,
    buffer: Option<u32>,
    shifting: Option<(u32, u32)>,
    sent: Vec<u32>,
}

impl Line {
    fn clock(&mut self) {
        match &mut self.shifting {
            Some((_, left)) if *left > 1 => *left -= 1,
            _ => {
                self.sent.extend(self.shifting.take().map(|(word, _)| word));
                self.shifting = self.buffer.take().map(|word| (word, self.length));
            }
        }
    }

    fn ssf(&self) -> u8 {
        self.buffer.is_none() as u8
    }
}

#[test]
fn line_is_idle_after_flush() {
    let (shifter, timer) = units();
    let mut ops = Vec::new();
    let mut uart = FlexioUartTx::new(shifter, timer, &Pad, &mut ops, 115_200, 24_000_000);
    for length in [1, 1_000, uart.flush_clocks()] {
        let mut line = Line { length, buffer: None, shifting: None, sent: Vec::new() };
        let data: Vec<u8> = (0..70).collect();
        for word in transmit(&data).concat() {
            while line.ssf() == 0 {
                line.clock();
            }
            line.buffer = Some(word);
        }
        let mut stage = FlushStage::Buffer;
        let mut waited = 0;
        loop {
            match uart.blocking_flush(stage, line.ssf(), waited) {
                Progress::Again(next) => {
                    line.clock();
                    if stage == FlushStage::Line {
                        waited += 1;
                    }
                    stage = next;
                }
                Progress::Wait(_) => panic!("a flush does not wait"),
                Progress::Ready(()) => break,
            }
        }
        assert!(line.buffer.is_none() && line.shifting.is_none());
        let bytes: Vec<u8> = line.sent.iter().map(|word| *word as u8).collect();
        assert_eq!(bytes, data);
    }
}

#[test]
fn transfer_is_shut_down() {
    let mut ops = Vec::new();
    TxDmaGuard::new().complete(&mut ops);
    assert_eq!(
        ops,
        vec![
            FlexioOp::ModifyShiftsden { clear: 1, set: 0 },
            FlexioOp::Dma(DmaOp::DisableRequest),
            FlexioOp::Dma(DmaOp::ClearDone),
        ]
    );
    let mut aborted = Vec::new();
    TxDmaGuard::new().abort(&mut aborted);
    ops.push(FlexioOp::Dma(DmaOp::ClearInterrupt));
    assert_eq!(aborted, ops);
}
