use bootimage::composer::{create_disk_image, Action, Composer, Event, Stage, CHUNK_SIZE};
use bootimage::error::Error;
use bootimage::info_block::{create_kernel_info_block, KernelInfoBlock};
use bootimage::layout::{padding_size, SECTOR_SIZE};
use bootimage::run;

fn block(kernel_size: u64) -> KernelInfoBlock {
    create_kernel_info_block(kernel_size).unwrap()
}

fn pattern(len: usize) -> Vec<u8> {
    (0..len).map(|i| (i * 7 + 3) as u8).collect()
}

/// What the image is to be, put together by hand.
fn expected(bootloader: &[u8], kernel: &[u8]) -> Vec<u8> {
    let mut image = bootloader.to_vec();
    image.extend_from_slice(&(kernel.len() as u32).to_le_bytes());
    image.extend_from_slice(&[0u8; 508]);
    image.extend_from_slice(kernel);
    while (image.len() - bootloader.len()) % 512 != 0 {
        image.push(0);
    }
    image
}

/// A kernel source that delivers what it is told to, one answer per read.
struct Source {
    data: Vec<u8>,
    position: usize,
    /// The reads, counted from the first, that are interrupted.
    interrupted: Vec<usize>,
    /// The read, counted from the first, that fails.
    fails: Option<usize>,
    /// The most that one read delivers.
    limit: usize,
    reads: usize,
}

impl Source {
    fn new(data: &[u8]) -> Source {
        Source {
            data: data.to_vec(),
            position: 0,
            interrupted: Vec::new(),
            fails: None,
            limit: CHUNK_SIZE,
            reads: 0,
        }
    }

    fn read(&mut self) -> Event {
        let read = self.reads;
        self.reads += 1;
        if self.fails == Some(read) {
            return Event::Failed;
        }
        if self.interrupted.contains(&read) {
            return Event::Interrupted;
        }
        let end = (self.position + self.limit).min(self.data.len());
        let chunk = self.data[self.position..end].to_vec();
        self.position = end;
        Event::Read(chunk)
    }
}

/// Drives a composer to its end. The write of the given number, counted
/// from the first, fails; so does creating the output, if asked for.
fn drive(
    mut composer: Composer,
    source: &mut Source,
    create_fails: bool,
    write_fails: Option<usize>,
) -> (Result<(), Error>, Vec<u8>, Vec<Stage>) {
    let mut output: Vec<u8> = vec![0xee; 3];
    let mut stages = vec![composer.stage()];
    let mut writes = 0;
    for _ in 0..1_000_000 {
        let event = match composer.action() {
            Action::Create => {
                if create_fails {
                    Event::Failed
                } else {
                    output.clear();
                    Event::Completed
                }
            }
            Action::Write(bytes) => {
                writes += 1;
                if write_fails == Some(writes - 1) {
                    output.extend_from_slice(&bytes[..bytes.len() / 2]);
                    Event::Failed
                } else {
                    output.extend_from_slice(bytes);
                    Event::Completed
                }
            }
            Action::Read => source.read(),
            Action::Finish => return (Ok(()), output, stages),
            Action::Abort(error) => return (Err(error), output, stages),
        };
        composer.advance(event);
        if stages.last() != Some(&composer.stage()) {
            stages.push(composer.stage());
        }
    }
    panic!("the composition does not end");
}

fn compose(bootloader: &[u8], kernel: &[u8]) -> Vec<u8> {
    let composer = Composer::new(bootloader.to_vec(), block(kernel.len() as u64), kernel.len() as u64);
    let (result, output, _) = drive(composer, &mut Source::new(kernel), false, None);
    assert_eq!(result, Ok(()));
    output
}

#[test]
fn a_two_byte_bootloader_and_a_600_byte_kernel_of_zeros() {
    let bootloader = [0xaa, 0xbb];
    let kernel = [0u8; 600];
    let image = create_disk_image(&kernel, block(600), &bootloader);
    assert_eq!(image.len(), 1538);
    assert_eq!(&image[0..2], &[0xaa, 0xbb]);
    assert_eq!(&image[2..6], &[0x58, 0x02, 0x00, 0x00]);
    assert!(image[6..514].iter().all(|byte| *byte == 0));
    assert!(image[514..1114].iter().all(|byte| *byte == 0));
    assert!(image[1114..1538].iter().all(|byte| *byte == 0));
    assert_eq!(padding_size(600), 424);
    assert_eq!(compose(&bootloader, &kernel), image);
}

#[test]
fn a_600_byte_kernel_is_copied_byte_for_byte() {
    let bootloader = [0xaa, 0xbb];
    let kernel = pattern(600);
    let image = create_disk_image(&kernel, block(600), &bootloader);
    assert_eq!(image.len(), 2 + 512 + 600 + 424);
    assert_eq!(&image[0..2], &[0xaa, 0xbb]);
    assert_eq!(&image[2..6], &[0x58, 0x02, 0x00, 0x00]);
    assert!(image[6..514].iter().all(|byte| *byte == 0));
    assert_eq!(&image[514..1114], &kernel[..]);
    assert!(image[1114..1538].iter().all(|byte| *byte == 0));
    assert_eq!(image, expected(&bootloader, &kernel));
    assert_eq!(compose(&bootloader, &kernel), image);
}

#[test]
fn a_kernel_of_one_sector_gets_no_padding() {
    assert_eq!(padding_size(512), 0);
    for bootloader_len in [0usize, 1, 2, 446, 512, 513, 4096] {
        let bootloader = pattern(bootloader_len);
        let kernel = pattern(512);
        let image = create_disk_image(&kernel, block(512), &bootloader);
        assert_eq!(image.len(), bootloader_len + 1024);
        assert_eq!(&image[bootloader_len + 512..], &kernel[..]);
        assert_eq!(compose(&bootloader, &kernel), image);
    }
}

#[test]
fn an_interrupted_read_leaves_no_trace() {
    let bootloader = pattern(37);
    let kernel = pattern(3000);
    let plain = compose(&bootloader, &kernel);
    for interrupted in [vec![0], vec![1], vec![2], vec![3], vec![0, 1, 2], vec![1, 3, 5, 6, 7]] {
        let composer = Composer::new(bootloader.clone(), block(3000), 3000);
        let mut source = Source::new(&kernel);
        source.interrupted = interrupted.clone();
        let (result, output, stages) = drive(composer, &mut source, false, None);
        assert_eq!(result, Ok(()));
        assert_eq!(output, plain);
        assert_eq!(source.reads, 4 + interrupted.len());
        assert_eq!(stages.last(), Some(&Stage::Done));
    }
    assert_eq!(plain, expected(&bootloader, &kernel));
}

#[test]
fn an_interrupted_read_is_asked_for_again() {
    let mut composer = Composer::new(vec![1, 2, 3], block(4), 4);
    composer.advance(Event::Completed);
    composer.advance(Event::Completed);
    composer.advance(Event::Completed);
    assert_eq!(composer.stage(), Stage::WriteKernel);
    for _ in 0..5 {
        assert!(matches!(composer.action(), Action::Read));
        composer.advance(Event::Interrupted);
        assert_eq!(composer.stage(), Stage::WriteKernel);
        assert_eq!(composer.delivered(), 0);
    }
    composer.advance(Event::Read(vec![9, 8, 7, 6]));
    assert!(matches!(composer.action(), Action::Write(bytes) if bytes == [9, 8, 7, 6]));
}

#[test]
fn the_stages_follow_one_another() {
    let composer = Composer::new(pattern(5), block(2500), 2500);
    let (result, _, stages) = drive(composer, &mut Source::new(&pattern(2500)), false, None);
    assert_eq!(result, Ok(()));
    assert_eq!(
        stages,
        vec![
            Stage::Init,
            Stage::WriteBootloader,
            Stage::WriteMetadata,
            Stage::WriteKernel,
            Stage::WritePadding,
            Stage::Done,
        ]
    );
}

#[test]
fn the_actions_of_a_composition_come_in_order() {
    let bootloader = vec![0xaa, 0xbb];
    let kernel = pattern(1500);
    let mut composer = Composer::new(bootloader.clone(), block(1500), 1500);
    assert_eq!(composer.stage(), Stage::Init);
    assert!(!composer.is_done());
    assert!(matches!(composer.action(), Action::Create));
    composer.advance(Event::Completed);

    assert_eq!(composer.stage(), Stage::WriteBootloader);
    assert!(matches!(composer.action(), Action::Write(bytes) if bytes == [0xaa, 0xbb]));
    composer.advance(Event::Completed);

    assert_eq!(composer.stage(), Stage::WriteMetadata);
    match composer.action() {
        Action::Write(bytes) => {
            assert_eq!(bytes.len(), 512);
            assert_eq!(&bytes[..4], &[0xdc, 0x05, 0, 0]);
            assert!(bytes[4..].iter().all(|byte| *byte == 0));
        }
        _ => panic!("the info block is to be written"),
    }
    composer.advance(Event::Completed);

    assert_eq!(composer.stage(), Stage::WriteKernel);
    assert!(matches!(composer.action(), Action::Read));
    composer.advance(Event::Read(kernel[..1024].to_vec()));
    assert_eq!(composer.delivered(), 1024);
    assert!(matches!(composer.action(), Action::Write(bytes) if bytes == &kernel[..1024]));
    composer.advance(Event::Completed);

    assert!(matches!(composer.action(), Action::Read));
    composer.advance(Event::Read(kernel[1024..].to_vec()));
    assert_eq!(composer.delivered(), 1500);
    assert!(matches!(composer.action(), Action::Write(bytes) if bytes == &kernel[1024..]));
    composer.advance(Event::Completed);

    assert_eq!(composer.stage(), Stage::WriteKernel);
    assert!(matches!(composer.action(), Action::Read));
    composer.advance(Event::Read(Vec::new()));

    assert_eq!(composer.stage(), Stage::WritePadding);
    assert!(matches!(composer.action(), Action::Write(bytes) if bytes == &[0u8; 36][..]));
    composer.advance(Event::Completed);

    assert_eq!(composer.stage(), Stage::Done);
    assert!(composer.is_done());
    assert!(matches!(composer.action(), Action::Finish));
}

#[test]
fn the_image_length_is_the_sum_of_its_parts() {
    for bootloader_len in [0usize, 1, 2, 511, 512, 513, 1000] {
        for kernel_len in [0usize, 1, 2, 511, 512, 513, 600, 1023, 1024, 1025, 1536, 5000] {
            let bootloader = pattern(bootloader_len);
            let kernel = pattern(kernel_len);
            let padding = padding_size(kernel_len as u64);
            let image = create_disk_image(&kernel, block(kernel_len as u64), &bootloader);
            assert_eq!(image.len(), bootloader_len + 512 + kernel_len + padding);
            assert_eq!((image.len() - bootloader_len) % 512, 0);
            assert_eq!(image, expected(&bootloader, &kernel));
            assert_eq!(compose(&bootloader, &kernel), image);
        }
    }
}

#[test]
fn the_padding_is_shorter_than_a_sector() {
    assert_eq!(SECTOR_SIZE, 512);
    assert_eq!(padding_size(0), 0);
    assert_eq!(padding_size(1), 511);
    assert_eq!(padding_size(511), 1);
    assert_eq!(padding_size(512), 0);
    assert_eq!(padding_size(513), 511);
    assert_eq!(padding_size(600), 424);
    assert_eq!(padding_size(1024), 0);
    assert_eq!(padding_size(0xffff_ffff), 1);
    assert_eq!(padding_size(u64::MAX), 1);
    assert_eq!(padding_size(u64::MAX - 511), 0);
    for kernel_len in 0..5000u64 {
        let padding = padding_size(kernel_len);
        assert!(padding <= 511);
        assert_eq!(padding == 0, kernel_len % 512 == 0);
        assert_eq!((kernel_len + padding as u64) % 512, 0);
        assert_eq!(padding as u64, (512 - kernel_len % 512) % 512);
    }
}

#[test]
fn the_parts_of_an_empty_image() {
    let image = create_disk_image(&[], block(0), &[]);
    assert_eq!(image, vec![0u8; 512]);
    assert_eq!(compose(&[], &[]), image);
}

#[test]
fn the_info_block_is_written_as_it_is_given() {
    let kernel = pattern(10);
    let image = create_disk_image(&kernel, block(77), &[1]);
    assert_eq!(&image[1..5], &[77, 0, 0, 0]);
    assert_eq!(&image[513..523], &kernel[..]);
    assert_eq!(image.len(), 1 + 512 + 512);
}

#[test]
fn chunks_of_any_size_give_the_same_image() {
    let bootloader = pattern(100);
    let kernel = pattern(2600);
    let plain = expected(&bootloader, &kernel);
    for limit in [1usize, 2, 7, 512, 1023, 1024, 1025, 2600, 10_000] {
        let composer = Composer::new(bootloader.clone(), block(2600), 2600);
        let mut source = Source::new(&kernel);
        source.limit = limit;
        let (result, output, _) = drive(composer, &mut source, false, None);
        assert_eq!(result, Ok(()));
        assert_eq!(output, plain);
    }
}

#[test]
fn a_failure_to_create_the_output_aborts() {
    let composer = Composer::new(pattern(5), block(10), 10);
    let mut source = Source::new(&pattern(10));
    let (result, output, stages) = drive(composer, &mut source, true, None);
    assert_eq!(result, Err(Error::Io));
    assert_eq!(output, vec![0xee; 3]);
    assert_eq!(stages, vec![Stage::Init, Stage::Failed]);
    assert_eq!(source.reads, 0);
}

#[test]
fn a_failed_write_aborts_at_every_stage() {
    let bootloader = pattern(5);
    let kernel = pattern(1500);
    let cases = [
        (0, vec![Stage::Init, Stage::WriteBootloader, Stage::Failed]),
        (1, vec![Stage::Init, Stage::WriteBootloader, Stage::WriteMetadata, Stage::Failed]),
        (
            2,
            vec![
                Stage::Init,
                Stage::WriteBootloader,
                Stage::WriteMetadata,
                Stage::WriteKernel,
                Stage::Failed,
            ],
        ),
        (
            3,
            vec![
                Stage::Init,
                Stage::WriteBootloader,
                Stage::WriteMetadata,
                Stage::WriteKernel,
                Stage::Failed,
            ],
        ),
        (
            4,
            vec![
                Stage::Init,
                Stage::WriteBootloader,
                Stage::WriteMetadata,
                Stage::WriteKernel,
                Stage::WritePadding,
                Stage::Failed,
            ],
        ),
    ];
    for (write, stages_expected) in cases {
        let composer = Composer::new(bootloader.clone(), block(1500), 1500);
        let mut source = Source::new(&kernel);
        let (result, output, stages) = drive(composer, &mut source, false, Some(write));
        assert_eq!(result, Err(Error::Io));
        assert_eq!(stages, stages_expected);
        assert!(output.len() < expected(&bootloader, &kernel).len());
    }
}

#[test]
fn a_failed_read_aborts() {
    for read in 0..3 {
        let composer = Composer::new(pattern(5), block(1500), 1500);
        let mut source = Source::new(&pattern(1500));
        source.fails = Some(read);
        let (result, _, stages) = drive(composer, &mut source, false, None);
        assert_eq!(result, Err(Error::Io));
        assert_eq!(stages.last(), Some(&Stage::Failed));
        assert_eq!(source.reads, read + 1);
    }
}

#[test]
fn a_source_that_ends_early_fails_the_composition() {
    let composer = Composer::new(pattern(5), block(1500), 1500);
    let mut source = Source::new(&pattern(1499));
    let (result, output, _) = drive(composer, &mut source, false, None);
    assert_eq!(result, Err(Error::Io));
    assert_eq!(output.len(), 5 + 512 + 1499);

    let composer = Composer::new(pattern(5), block(1), 1);
    let (result, _, _) = drive(composer, &mut Source::new(&[]), false, None);
    assert_eq!(result, Err(Error::Io));
}

#[test]
fn a_source_that_goes_on_for_longer_fails_the_composition() {
    let composer = Composer::new(pattern(5), block(1500), 1500);
    let mut source = Source::new(&pattern(1501));
    let (result, output, _) = drive(composer, &mut source, false, None);
    assert_eq!(result, Err(Error::Io));
    assert_eq!(output.len(), 5 + 512 + 1024);

    let composer = Composer::new(pattern(5), block(0), 0);
    let (result, output, _) = drive(composer, &mut Source::new(&[1]), false, None);
    assert_eq!(result, Err(Error::Io));
    assert_eq!(output.len(), 5 + 512);

    let composer = Composer::new(pattern(5), block(1024), 1024);
    let (result, output, _) = drive(composer, &mut Source::new(&pattern(2048)), false, None);
    assert_eq!(result, Err(Error::Io));
    assert_eq!(output.len(), 5 + 512 + 1024);
}

#[test]
fn an_event_that_answers_nothing_fails_the_composition() {
    let events: [fn() -> Event; 3] =
        [|| Event::Read(vec![1]), || Event::Read(Vec::new()), || Event::Interrupted];
    for event in events {
        let mut composer = Composer::new(pattern(5), block(10), 10);
        composer.advance(event());
        assert_eq!(composer.stage(), Stage::Failed);
        assert!(matches!(composer.action(), Action::Abort(Error::Io)));

        let mut composer = Composer::new(pattern(5), block(10), 10);
        composer.advance(Event::Completed);
        composer.advance(event());
        assert_eq!(composer.stage(), Stage::Failed);

        let mut composer = Composer::new(pattern(5), block(10), 10);
        composer.advance(Event::Completed);
        composer.advance(Event::Completed);
        composer.advance(Event::Completed);
        composer.advance(Event::Read(pattern(10)));
        composer.advance(event());
        assert_eq!(composer.stage(), Stage::Failed);
    }
    let mut composer = Composer::new(pattern(5), block(10), 10);
    composer.advance(Event::Completed);
    composer.advance(Event::Completed);
    composer.advance(Event::Completed);
    assert!(matches!(composer.action(), Action::Read));
    composer.advance(Event::Completed);
    assert_eq!(composer.stage(), Stage::Failed);
}

#[test]
fn nothing_leads_on_from_the_end() {
    let events: [fn() -> Event; 5] = [
        || Event::Completed,
        || Event::Read(vec![1]),
        || Event::Read(Vec::new()),
        || Event::Interrupted,
        || Event::Failed,
    ];
    for event in events {
        let mut composer = Composer::new(Vec::new(), block(0), 0);
        composer.advance(Event::Completed);
        composer.advance(Event::Completed);
        composer.advance(Event::Completed);
        composer.advance(Event::Read(Vec::new()));
        composer.advance(Event::Completed);
        assert!(composer.is_done());
        composer.advance(event());
        assert_eq!(composer.stage(), Stage::Done);
        assert!(matches!(composer.action(), Action::Finish));

        let mut composer = Composer::new(Vec::new(), block(0), 0);
        composer.advance(Event::Failed);
        assert_eq!(composer.stage(), Stage::Failed);
        composer.advance(event());
        assert_eq!(composer.stage(), Stage::Failed);
        assert!(matches!(composer.action(), Action::Abort(Error::Io)));
    }
}

#[test]
fn run_assembles_the_image_of_kernel_and_bootloader() {
    let elf = bootloader_elf(&[0xaa, 0xbb]);
    let kernel = [0u8; 600];
    let image = run(&kernel, &elf).unwrap();
    assert_eq!(image.len(), 1538);
    assert_eq!(&image[0..2], &[0xaa, 0xbb]);
    assert_eq!(&image[2..6], &[0x58, 0x02, 0x00, 0x00]);
    assert!(image[6..].iter().all(|byte| *byte == 0));

    let kernel = pattern(512);
    let image = run(&kernel, &elf).unwrap();
    assert_eq!(image.len(), 2 + 1024);
    assert_eq!(image, expected(&[0xaa, 0xbb], &kernel));
}

#[test]
fn run_reports_what_is_wrong_with_the_bootloader() {
    let mut elf = bootloader_elf(&[0xaa, 0xbb]);
    assert_eq!(run(&[1, 2, 3], &[]), Err(Error::MalformedElf));
    assert_eq!(run(&[1, 2, 3], &elf[..elf.len() - 1]), Err(Error::MalformedElf));
    let name_at = elf.windows(11).position(|window| window == b".bootloader").unwrap();
    elf[name_at + 1] = b'x';
    assert_eq!(run(&[1, 2, 3], &elf), Err(Error::SectionNotFound));
}

/// A little-endian executable of 64-bit class that holds the given payload
/// in its section `.bootloader`.
fn bootloader_elf(payload: &[u8]) -> Vec<u8> {
    let names = b"\0.bootloader\0.shstrtab\0";
    let mut elf = vec![0u8; 64];
    let payload_at = elf.len() as u64;
    elf.extend_from_slice(payload);
    let names_at = elf.len() as u64;
    elf.extend_from_slice(names);
    while elf.len() % 8 != 0 {
        elf.push(0);
    }
    let table_at = elf.len() as u64;
    let sections = [
        (0u32, 0u32, 0u64, 0u64),
        (1, 1, payload_at, payload.len() as u64),
        (13, 3, names_at, names.len() as u64),
    ];
    for (name, kind, offset, size) in sections {
        let mut entry = [0u8; 64];
        entry[0..4].copy_from_slice(&name.to_le_bytes());
        entry[4..8].copy_from_slice(&kind.to_le_bytes());
        entry[24..32].copy_from_slice(&offset.to_le_bytes());
        entry[32..40].copy_from_slice(&size.to_le_bytes());
        elf.extend_from_slice(&entry);
    }
    elf[0..7].copy_from_slice(&[0x7f, b'E', b'L', b'F', 2, 1, 1]);
    elf[40..48].copy_from_slice(&table_at.to_le_bytes());
    elf[52..54].copy_from_slice(&64u16.to_le_bytes());
    elf[58..60].copy_from_slice(&64u16.to_le_bytes());
    elf[60..62].copy_from_slice(&3u16.to_le_bytes());
    elf[62..64].copy_from_slice(&2u16.to_le_bytes());
    elf
}
