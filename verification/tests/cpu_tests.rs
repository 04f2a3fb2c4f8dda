use chip8::cpu::{Cpu, OPCODE_SIZE};
use chip8::keyboard::Keyboard;
use chip8::memory::Memory;

#[test]
fn cpu_initial_state() {
    let cpu = Cpu::new();
    assert_eq!(cpu.pc, 0x200);
    assert_eq!(cpu.stack.stack_pointer, 0);
    assert_eq!(cpu.stack.stack, vec![0u16; 16]);
}

#[test]
fn test_op00e0() {
    let mut cpu = Cpu::new();
    let mut mem = Memory::new();
    let key = Keyboard::new();
    cpu.pc = 0x200;
    cpu.opcode = 0x00E0;

    cpu.execute_opcode(&mut mem, &key);

    for y in 0..32 {
        for x in 0..64 {
            assert_eq!(mem.display.get(x, y), 0);
        }
    }

    assert_eq!(cpu.pc, 0x200 + OPCODE_SIZE)
}

#[test]
fn test_op00ee() {
    let mut cpu = Cpu::new();
    let mut mem = Memory::new();
    let key = Keyboard::new();
    cpu.opcode = 0x00EE;

    cpu.stack.stack_pointer = 5;
    cpu.stack.stack[4] = 0x4444;
    cpu.execute_opcode(&mut mem, &key);

    assert_eq!(cpu.stack.stack_pointer, 4);
    assert_eq!(cpu.pc, 0x4444);
}

#[test]
fn test_op1nnn() {
    let mut cpu = Cpu::new();
    let mut mem = Memory::new();
    let key = Keyboard::new();
    cpu.opcode = 0x1300;

    cpu.pc = 0x200;
    cpu.execute_opcode(&mut mem, &key);

    assert_eq!(cpu.pc, 0x300);
}

#[test]
fn test_op2nnn() {
    let mut cpu = Cpu::new();
    let mut mem = Memory::new();
    let key = Keyboard::new();
    cpu.opcode = 0x2300;

    cpu.pc = 0x200;
    cpu.stack.stack_pointer = 2;
    cpu.stack.stack[2] = 0x4444;
    cpu.execute_opcode(&mut mem, &key);

    assert_eq!(cpu.stack.stack_pointer, 3);
    assert_eq!(cpu.stack.stack[2], 0x200 + OPCODE_SIZE as u16);
    assert_eq!(cpu.pc, 0x300);
}

#[test]
fn test_op3xkk() {
    let mut cpu = Cpu::new();
    let mut mem = Memory::new();
    let key = Keyboard::new();
    // With satisfied predicate
    cpu.opcode = 0x3469;

    cpu.pc = 0x200;
    cpu.v_registers[0x04] = 0x69;
    cpu.execute_opcode(&mut mem, &key);

    assert_eq!(cpu.pc, 0x200 + OPCODE_SIZE * 2);

    // With unsatisfied predicate
    cpu.opcode = 0x3469;

    cpu.pc = 0x200;
    cpu.v_registers[0x04] = 0x49;
    cpu.execute_opcode(&mut mem, &key);

    assert_eq!(cpu.pc, 0x200 + OPCODE_SIZE);
}

#[test]
fn test_op4xkk() {
    let mut cpu = Cpu::new();
    let mut mem = Memory::new();
    let key = Keyboard::new();
    // With satisfied predicate
    cpu.opcode = 0x4469;

    cpu.pc = 0x200;
    cpu.v_registers[0x04] = 0x49;
    cpu.execute_opcode(&mut mem, &key);

    assert_eq!(cpu.pc, 0x200 + OPCODE_SIZE * 2);

    // With unsatisfied predicate
    cpu.opcode = 0x4469;

    cpu.pc = 0x200;
    cpu.v_registers[0x04] = 0x69;
    cpu.execute_opcode(&mut mem, &key);

    assert_eq!(cpu.pc, 0x200 + OPCODE_SIZE);
}

#[test]
fn test_op5xy0() {
    let mut cpu = Cpu::new();
    let mut mem = Memory::new();
    let key = Keyboard::new();
    // With satisfied predicate
    cpu.opcode = 0x5440;

    cpu.pc = 0x200;
    cpu.v_registers[0x04] = 0x04;
    cpu.execute_opcode(&mut mem, &key);

    assert_eq!(cpu.pc, 0x200 + OPCODE_SIZE * 2);

    // With unsatisfied predicate
    cpu.opcode = 0x5460;

    cpu.pc = 0x200;
    cpu.v_registers[0x04] = 0x04;
    cpu.v_registers[0x06] = 0x06;
    cpu.execute_opcode(&mut mem, &key);

    assert_eq!(cpu.pc, 0x200 + OPCODE_SIZE);
}

#[test]
fn test_op6xkk() {
    let mut cpu = Cpu::new();
    let mut mem = Memory::new();
    let key = Keyboard::new();
    cpu.opcode = 0x6440;

    cpu.pc = 0x200;
    cpu.v_registers[0x04] = 0x04;
    cpu.execute_opcode(&mut mem, &key);
    assert_eq!(cpu.v_registers[0x04], 0x40);
    assert_eq!(cpu.pc, 0x200 + OPCODE_SIZE);
}

#[test]
fn test_op7xkk() {
    let mut cpu = Cpu::new();
    let mut mem = Memory::new();
    let key = Keyboard::new();
    cpu.opcode = 0x7440;

    cpu.pc = 0x200;
    cpu.v_registers[0x04] = 0x04;
    cpu.execute_opcode(&mut mem, &key);
    assert_eq!(cpu.v_registers[0x04], 0x44);
    assert_eq!(cpu.pc, 0x200 + OPCODE_SIZE);
}

#[test]
fn test_op8xy0() {
    let mut cpu = Cpu::new();
    let mut mem = Memory::new();
    let key = Keyboard::new();
    cpu.opcode = 0x8450;

    cpu.pc = 0x200;
    cpu.v_registers[0x04] = 0x04;
    cpu.v_registers[0x05] = 0x05;
    cpu.execute_opcode(&mut mem, &key);
    assert_eq!(cpu.v_registers[0x04], 0x05);
    assert_eq!(cpu.pc, 0x200 + OPCODE_SIZE);
}

#[test]
fn test_op8xy1() {
    let mut cpu = Cpu::new();
    let mut mem = Memory::new();
    let key = Keyboard::new();
    cpu.opcode = 0x8451;

    cpu.pc = 0x200;
    cpu.v_registers[0x04] = 0x04;
    cpu.v_registers[0x05] = 0x05;
    cpu.execute_opcode(&mut mem, &key);
    assert_eq!(cpu.v_registers[0x04], 0x04 | 0x05);
    assert_eq!(cpu.pc, 0x200 + OPCODE_SIZE);
}

#[test]
fn test_op8xy2() {
    let mut cpu = Cpu::new();
    let mut mem = Memory::new();
    let key = Keyboard::new();
    cpu.opcode = 0x8452;

    cpu.pc = 0x200;
    cpu.v_registers[0x04] = 0x04;
    cpu.v_registers[0x05] = 0x05;
    cpu.execute_opcode(&mut mem, &key);
    assert_eq!(cpu.v_registers[0x04], 0x04 & 0x05);
    assert_eq!(cpu.pc, 0x200 + OPCODE_SIZE);
}

#[test]
fn test_op8xy3() {
    let mut cpu = Cpu::new();
    let mut mem = Memory::new();
    let key = Keyboard::new();
    cpu.opcode = 0x8453;

    cpu.pc = 0x200;
    cpu.v_registers[0x04] = 0x04;
    cpu.v_registers[0x05] = 0x05;
    cpu.execute_opcode(&mut mem, &key);
    assert_eq!(cpu.v_registers[0x04], 0x04 ^ 0x05);
    assert_eq!(cpu.pc, 0x200 + OPCODE_SIZE);
}

#[test]
fn test_op8xy4() {
    let mut cpu = Cpu::new();
    let mut mem = Memory::new();
    let key = Keyboard::new();
    // ADD does not exceed 8 bit (255)
    cpu.opcode = 0x8454;

    cpu.pc = 0x200;
    cpu.v_registers[0x04] = 0x04;
    cpu.v_registers[0x05] = 0x05;
    cpu.execute_opcode(&mut mem, &key);
    assert_eq!(cpu.v_registers[0x04], 0x09);
    assert_eq!(cpu.v_registers[0x0F], 0);
    assert_eq!(cpu.pc, 0x200 + OPCODE_SIZE);

    // ADD exceed 8 bit (255)
    cpu.opcode = 0x8454;

    cpu.pc = 0x200;
    cpu.v_registers[0x04] = 254;
    cpu.v_registers[0x05] = 3;
    cpu.execute_opcode(&mut mem, &key);
    assert_eq!(cpu.v_registers[0x04], 1);
    assert_eq!(cpu.v_registers[0x0F], 1);
    assert_eq!(cpu.pc, 0x200 + OPCODE_SIZE);
}

#[test]
fn test_op8xy5() {
    let mut cpu = Cpu::new();
    let mut mem = Memory::new();
    let key = Keyboard::new();
    // Vx > Vy
    cpu.opcode = 0x8455;

    cpu.pc = 0x200;
    cpu.v_registers[0x04] = 0x04;
    cpu.v_registers[0x05] = 0x01;
    cpu.execute_opcode(&mut mem, &key);
    assert_eq!(cpu.v_registers[0x04], 0x03);
    assert_eq!(cpu.v_registers[0x0F], 1);
    assert_eq!(cpu.pc, 0x200 + OPCODE_SIZE);

    // Vx < Vy
    cpu.opcode = 0x8455;

    cpu.pc = 0x200;
    cpu.v_registers[0x04] = 0x04;
    cpu.v_registers[0x05] = 0x05;
    cpu.execute_opcode(&mut mem, &key);
    assert_eq!(cpu.v_registers[0x04], 0xFF);
    assert_eq!(cpu.v_registers[0x0F], 0);
    assert_eq!(cpu.pc, 0x200 + OPCODE_SIZE);
}

#[test]
fn test_op8xy6() {
    let mut cpu = Cpu::new();
    let mut mem = Memory::new();
    let key = Keyboard::new();
    // Least significant bit = 1
    cpu.opcode = 0x8456;

    cpu.pc = 0x200;
    cpu.v_registers[0x04] = 0x05;
    cpu.v_registers[0x05] = 0x05;
    cpu.execute_opcode(&mut mem, &key);
    assert_eq!(cpu.v_registers[0x04], 0x02);
    assert_eq!(cpu.v_registers[0x0F], 1);
    assert_eq!(cpu.pc, 0x200 + OPCODE_SIZE);

    // Least significant bit = 0
    cpu.opcode = 0x8456;

    cpu.pc = 0x200;
    cpu.v_registers[0x04] = 0x04;
    cpu.v_registers[0x05] = 0x05;
    cpu.execute_opcode(&mut mem, &key);
    assert_eq!(cpu.v_registers[0x04], 0x02);
    assert_eq!(cpu.v_registers[0x0F], 0);
    assert_eq!(cpu.pc, 0x200 + OPCODE_SIZE);
}

#[test]
fn test_op8xy7() {
    let mut cpu = Cpu::new();
    let mut mem = Memory::new();
    let key = Keyboard::new();
    // Vy > Vx: the difference is positive, so no borrow and VF = 1
    cpu.opcode = 0x8457;

    cpu.pc = 0x200;
    cpu.v_registers[0x04] = 0x04;
    cpu.v_registers[0x05] = 0x05;
    cpu.execute_opcode(&mut mem, &key);
    assert_eq!(cpu.v_registers[0x04], 0x01);
    assert_eq!(cpu.v_registers[0x0F], 1);
    assert_eq!(cpu.pc, 0x200 + OPCODE_SIZE);

    // Vy < Vx: the difference wraps around and VF = 0
    cpu.opcode = 0x8457;

    cpu.pc = 0x200;
    cpu.v_registers[0x04] = 0x04;
    cpu.v_registers[0x05] = 0x03;
    cpu.execute_opcode(&mut mem, &key);
    assert_eq!(cpu.v_registers[0x04], 0xFF);
    assert_eq!(cpu.v_registers[0x0F], 0);
}

#[test]
fn test_op8xye() {
    let mut cpu = Cpu::new();
    let mut mem = Memory::new();
    let key = Keyboard::new();
    // Most significant bit = 1
    cpu.opcode = 0x845E;

    cpu.pc = 0x200;
    cpu.v_registers[0x04] = 0x81;
    cpu.v_registers[0x05] = 0x05;
    cpu.execute_opcode(&mut mem, &key);
    assert_eq!(cpu.v_registers[0x04], 0x02);
    assert_eq!(cpu.v_registers[0x0F], 1);
    assert_eq!(cpu.pc, 0x200 + OPCODE_SIZE);

    // Most significant bit = 0
    cpu.opcode = 0x845E;

    cpu.pc = 0x200;
    cpu.v_registers[0x04] = 0x01;
    cpu.v_registers[0x05] = 0x05;
    cpu.execute_opcode(&mut mem, &key);
    assert_eq!(cpu.v_registers[0x04], 0x02);
    assert_eq!(cpu.v_registers[0x0F], 0);
    assert_eq!(cpu.pc, 0x200 + OPCODE_SIZE);
}

#[test]
fn test_op9xy0() {
    let mut cpu = Cpu::new();
    let mut mem = Memory::new();
    let key = Keyboard::new();
    // Vx == Vy
    cpu.opcode = 0x9450;

    cpu.pc = 0x200;
    cpu.v_registers[0x04] = 0x04;
    cpu.v_registers[0x05] = 0x04;
    cpu.execute_opcode(&mut mem, &key);
    assert_eq!(cpu.pc, 0x200 + OPCODE_SIZE);

    // Vx != Vy
    cpu.opcode = 0x9450;

    cpu.pc = 0x200;
    cpu.v_registers[0x04] = 0x04;
    cpu.v_registers[0x05] = 0x05;
    cpu.execute_opcode(&mut mem, &key);
    assert_eq!(cpu.pc, 0x200 + OPCODE_SIZE * 2);
}

#[test]
fn test_opannn() {
    let mut cpu = Cpu::new();
    let mut mem = Memory::new();
    let key = Keyboard::new();
    cpu.opcode = 0xA456;

    cpu.pc = 0x200;
    cpu.i_register = 0;
    cpu.execute_opcode(&mut mem, &key);
    assert_eq!(cpu.i_register, 0x456);
    assert_eq!(cpu.pc, 0x200 + OPCODE_SIZE);
}

#[test]
fn test_opbnnn() {
    let mut cpu = Cpu::new();
    let mut mem = Memory::new();
    let key = Keyboard::new();
    cpu.opcode = 0xB512;

    cpu.pc = 0x200;
    cpu.v_registers[0] = 2;
    cpu.execute_opcode(&mut mem, &key);
    assert_eq!(cpu.pc, 0x514);
}

#[test]
fn test_opcxkk() {
    let mut cpu = Cpu::new();
    let mut mem = Memory::new();
    let key = Keyboard::new();
    // kk = 0
    cpu.opcode = 0xC400;

    cpu.pc = 0x200;
    cpu.execute_opcode(&mut mem, &key);
    assert_eq!(cpu.v_registers[4], 0);
    assert_eq!(cpu.pc, 0x200 + OPCODE_SIZE);

    // kk = 0F
    cpu.opcode = 0xC40F;

    cpu.pc = 0x200;
    cpu.execute_opcode(&mut mem, &key);
    assert_eq!(cpu.v_registers[4] & 0xF0, 0);
    assert_eq!(cpu.pc, 0x200 + OPCODE_SIZE);

    // kk = F0
    cpu.opcode = 0xC4F0;

    cpu.pc = 0x200;
    cpu.execute_opcode(&mut mem, &key);
    assert_eq!(cpu.v_registers[4] & 0x0F, 0);
    assert_eq!(cpu.pc, 0x200 + OPCODE_SIZE);
}

#[test]
fn test_opdxyn() {
    let mut cpu = Cpu::new();
    let mut mem = Memory::new();
    let key = Keyboard::new();
    cpu.opcode = 0xD455;

    // print on empty display
    cpu.pc = 0x200;
    cpu.i_register = 0x00;
    cpu.v_registers[4] = 4;
    cpu.v_registers[5] = 5;
    cpu.execute_opcode(&mut mem, &key);
    // first row of 0 sprite
    assert_eq!(mem.display.get(4, 5), 1);
    assert_eq!(mem.display.get(7, 5), 1);
    assert_eq!(mem.display.get(8, 5), 0);
    assert_eq!(mem.display.get(11, 5), 0);
    // last row of 0 sprite
    assert_eq!(mem.display.get(4, 9), 1);
    assert_eq!(mem.display.get(7, 9), 1);
    assert_eq!(mem.display.get(8, 9), 0);
    assert_eq!(mem.display.get(11, 9), 0);

    assert_eq!(cpu.pc, 0x200 + OPCODE_SIZE);

    // print on filled display
    cpu.pc = 0x200;
    cpu.i_register = 0x00;
    cpu.v_registers[4] = 6;
    cpu.v_registers[5] = 9;
    cpu.execute_opcode(&mut mem, &key);
    // first row of first 0 sprite
    assert_eq!(mem.display.get(4, 5), 1);
    assert_eq!(mem.display.get(7, 5), 1);
    assert_eq!(mem.display.get(8, 5), 0);
    assert_eq!(mem.display.get(11, 5), 0);
    // last row of first 0 sprite
    assert_eq!(mem.display.get(4, 9), 1);
    assert_eq!(mem.display.get(7, 9), 0);
    assert_eq!(mem.display.get(8, 9), 1);
    assert_eq!(mem.display.get(11, 9), 0);
    // first row of second 0 sprite
    assert_eq!(mem.display.get(6, 9), 0);
    assert_eq!(mem.display.get(9, 9), 1);
    assert_eq!(mem.display.get(10, 9), 0);
    assert_eq!(mem.display.get(13, 9), 0);
    // last row of second 0 sprite
    assert_eq!(mem.display.get(6, 13), 1);
    assert_eq!(mem.display.get(9, 13), 1);
    assert_eq!(mem.display.get(10, 13), 0);
    assert_eq!(mem.display.get(13, 13), 0);

    assert_eq!(cpu.pc, 0x200 + OPCODE_SIZE);
}

#[test]
fn test_opex9e() {
    let mut cpu = Cpu::new();
    let mut mem = Memory::new();
    let mut key = Keyboard::new();
    cpu.opcode = 0xE49E;

    // key 4 is pressed
    cpu.pc = 0x200;
    cpu.v_registers[4] = 4;
    key.keyboard[4] = 1;
    cpu.execute_opcode(&mut mem, &key);
    assert_eq!(cpu.pc, 0x200 + OPCODE_SIZE * 2);

    // key 4 is still
    cpu.pc = 0x200;
    cpu.v_registers[4] = 4;
    key.keyboard[4] = 0;
    cpu.execute_opcode(&mut mem, &key);
    assert_eq!(cpu.pc, 0x200 + OPCODE_SIZE);
}

#[test]
fn test_opexa1() {
    let mut cpu = Cpu::new();
    let mut mem = Memory::new();
    let mut key = Keyboard::new();
    cpu.opcode = 0xE4A1;

    // key 4 is pressed
    cpu.pc = 0x200;
    cpu.v_registers[4] = 4;
    key.keyboard[4] = 1;
    cpu.execute_opcode(&mut mem, &key);
    assert_eq!(cpu.pc, 0x200 + OPCODE_SIZE);

    // key 4 is still
    cpu.pc = 0x200;
    cpu.v_registers[4] = 4;
    key.keyboard[4] = 0;
    cpu.execute_opcode(&mut mem, &key);
    assert_eq!(cpu.pc, 0x200 + OPCODE_SIZE * 2);
}

#[test]
fn test_opfx07() {
    let mut cpu = Cpu::new();
    let mut mem = Memory::new();
    let key = Keyboard::new();
    cpu.opcode = 0xF407;

    cpu.pc = 0x200;
    cpu.delay_timer_register = 4;
    cpu.execute_opcode(&mut mem, &key);
    assert_eq!(cpu.v_registers[4], 4);
    assert_eq!(cpu.pc, 0x200 + OPCODE_SIZE);
}

#[test]
fn test_opfx0a() {
    let mut cpu = Cpu::new();
    let mut mem = Memory::new();
    let key = Keyboard::new();
    cpu.opcode = 0xF40A;

    cpu.pc = 0x200;
    cpu.execute_opcode(&mut mem, &key);
    assert_eq!(cpu.input_register, 4);
    assert_eq!(cpu.waiting_for_input, true);
    assert_eq!(cpu.pc, 0x200 + OPCODE_SIZE);
}

#[test]
fn test_opfx15() {
    let mut cpu = Cpu::new();
    let mut mem = Memory::new();
    let key = Keyboard::new();
    cpu.opcode = 0xF415;

    cpu.pc = 0x200;
    cpu.v_registers[4] = 4;
    cpu.execute_opcode(&mut mem, &key);
    assert_eq!(cpu.delay_timer_register, 4);
    assert_eq!(cpu.pc, 0x200 + OPCODE_SIZE);
}

#[test]
fn test_opfx18() {
    let mut cpu = Cpu::new();
    let mut mem = Memory::new();
    let key = Keyboard::new();
    cpu.opcode = 0xF418;

    cpu.pc = 0x200;
    cpu.v_registers[4] = 4;
    cpu.execute_opcode(&mut mem, &key);
    assert_eq!(cpu.sound_timer_register, 4);
    assert_eq!(cpu.pc, 0x200 + OPCODE_SIZE);
}

#[test]
fn test_opfx1e() {
    let mut cpu = Cpu::new();
    let mut mem = Memory::new();
    let key = Keyboard::new();
    cpu.opcode = 0xF41E;

    cpu.pc = 0x200;
    cpu.v_registers[4] = 4;
    cpu.i_register = 2;
    cpu.execute_opcode(&mut mem, &key);
    assert_eq!(cpu.i_register, 6);
    assert_eq!(cpu.pc, 0x200 + OPCODE_SIZE);
}

#[test]
fn test_opfx29() {
    let mut cpu = Cpu::new();
    let mut mem = Memory::new();
    let key = Keyboard::new();
    cpu.opcode = 0xF429;

    // Vx = 0
    cpu.pc = 0x200;
    cpu.v_registers[4] = 0;
    cpu.execute_opcode(&mut mem, &key);
    assert_eq!(cpu.i_register, 0);
    assert_eq!(cpu.pc, 0x200 + OPCODE_SIZE);
    // Vx = 1
    cpu.pc = 0x200;
    cpu.v_registers[4] = 1;
    cpu.execute_opcode(&mut mem, &key);
    assert_eq!(cpu.i_register, 5);
    assert_eq!(cpu.pc, 0x200 + OPCODE_SIZE);
    // Vx = 4
    cpu.pc = 0x200;
    cpu.v_registers[4] = 4;
    cpu.execute_opcode(&mut mem, &key);
    assert_eq!(cpu.i_register, 20);
    assert_eq!(cpu.pc, 0x200 + OPCODE_SIZE);
}

#[test]
fn test_opfx33() {
    let mut cpu = Cpu::new();
    let mut mem = Memory::new();
    let key = Keyboard::new();
    cpu.opcode = 0xF433;

    cpu.pc = 0x200;
    cpu.v_registers[4] = 249;
    cpu.i_register = 0x660;
    cpu.execute_opcode(&mut mem, &key);
    assert_eq!(mem.memory[0x660], 2);
    assert_eq!(mem.memory[0x661], 4);
    assert_eq!(mem.memory[0x662], 9);
    assert_eq!(cpu.pc, 0x200 + OPCODE_SIZE);
}

#[test]
fn test_opfx55() {
    let mut cpu = Cpu::new();
    let mut mem = Memory::new();
    let key = Keyboard::new();
    cpu.opcode = 0xF455;

    cpu.pc = 0x200;
    cpu.v_registers[0] = 0;
    cpu.v_registers[1] = 1;
    cpu.v_registers[2] = 2;
    cpu.v_registers[3] = 33;
    cpu.v_registers[4] = 244;
    cpu.i_register = 0x660;
    cpu.execute_opcode(&mut mem, &key);
    assert_eq!(mem.memory[0x660], 0);
    assert_eq!(mem.memory[0x661], 1);
    assert_eq!(mem.memory[0x662], 2);
    assert_eq!(mem.memory[0x663], 33);
    assert_eq!(mem.memory[0x664], 244);
    assert_eq!(cpu.pc, 0x200 + OPCODE_SIZE);
}

#[test]
fn test_opfx65() {
    let mut cpu = Cpu::new();
    let mut mem = Memory::new();
    let key = Keyboard::new();
    cpu.opcode = 0xF465;

    cpu.pc = 0x200;
    mem.memory[0x660] = 0;
    mem.memory[0x661] = 1;
    mem.memory[0x662] = 2;
    mem.memory[0x663] = 33;
    mem.memory[0x664] = 244;
    cpu.i_register = 0x660;
    cpu.execute_opcode(&mut mem, &key);
    assert_eq!(cpu.v_registers[0], 0);
    assert_eq!(cpu.v_registers[1], 1);
    assert_eq!(cpu.v_registers[2], 2);
    assert_eq!(cpu.v_registers[3], 33);
    assert_eq!(cpu.v_registers[4], 244);
    assert_eq!(cpu.pc, 0x200 + OPCODE_SIZE);
}
