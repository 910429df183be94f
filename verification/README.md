# stepper_lib

Control of stepper motors on a Raspberry Pi.

- `src/` is the verified core: the position and direction bookkeeping of a
  controller (`controller`), the step schedules of its movements (`motion`:
  acceleration runs, the phases of a movement over a number of steps, how a
  movement over a distance starts), and the component marker traits (`ctrl`).
- `app/` claims and pulses the GPIO pins through `rppal`, waits between
  pulses, and holds the floating-point physics (torque, acceleration curves,
  cylinder and gear conversions) around the core.
