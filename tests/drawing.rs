use crisp8::vm::Vm;

const ZERO_GLYPH: [u8; 5] = [0xF0, 0x90, 0x90, 0x90, 0xF0];

fn glyph_cell(x: usize, y: usize) -> bool {
    y < 5 && x < 8 && (ZERO_GLYPH[y] >> (7 - x)) & 1 == 1
}

#[test]
fn draw_glyph_then_erase_it() {
    let mut vm = Vm::new();
    vm.load(&[]).unwrap();
    vm.cpu.reg[0] = 0;
    vm.execute_with(0xF029, 0).unwrap();
    assert_eq!(vm.cpu.i_reg, 0);
    vm.execute_with(0xD005, 0).unwrap();
    assert_eq!(vm.cpu.reg[15], 0);
    for y in 0..32 {
        for x in 0..64 {
            assert_eq!(vm.memory.pixel(x, y), glyph_cell(x, y), "cell {} {}", x, y);
        }
    }
    assert!(vm.memory.vram_modified);
    vm.execute_with(0xD005, 0).unwrap();
    assert_eq!(vm.cpu.reg[15], 1);
    assert!(vm.memory.vram.iter().all(|c| !c));
    assert!(!vm.memory.vram_modified);
}

#[test]
fn draw_wraps_horizontally() {
    let mut vm = Vm::new();
    vm.memory.write_ram(0x300, 0xFF);
    vm.cpu.i_reg = 0x300;
    vm.cpu.reg[1] = 63;
    vm.cpu.reg[2] = 31;
    vm.execute_with(0xD121, 0).unwrap();
    assert!(vm.memory.pixel(63, 31));
    for x in 0..7 {
        assert!(vm.memory.pixel(x, 31));
    }
    assert!(!vm.memory.pixel(7, 31));
    assert_eq!(vm.memory.vram.iter().filter(|c| **c).count(), 8);
}

#[test]
fn draw_wraps_vertically() {
    let mut vm = Vm::new();
    vm.memory.write_ram(0x300, 0x80);
    vm.memory.write_ram(0x301, 0x80);
    vm.cpu.i_reg = 0x300;
    vm.cpu.reg[1] = 70;
    vm.cpu.reg[2] = 31;
    vm.execute_with(0xD122, 0).unwrap();
    assert!(vm.memory.pixel(6, 31));
    assert!(vm.memory.pixel(6, 0));
    assert_eq!(vm.memory.vram.iter().filter(|c| **c).count(), 2);
}

#[test]
fn clear_screen_resets_cells() {
    let mut vm = Vm::new();
    vm.memory.write_ram(0x300, 0xFF);
    vm.cpu.i_reg = 0x300;
    vm.execute_with(0xD001, 0).unwrap();
    assert!(vm.memory.vram_modified);
    vm.execute_with(0x00E0, 0).unwrap();
    assert!(vm.memory.vram.iter().all(|c| !c));
    assert!(!vm.memory.vram_modified);
}
