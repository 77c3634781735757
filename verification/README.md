# thermalctld

The decision logic of a SONiC thermal control daemon, verified with Verus.

- `src/` is the library. `fan` and `thermal` turn what fans, fan drawers and
  thermal sensors report into the entries of the STATE_DB tables `FAN_INFO`,
  `FAN_DRAWER_INFO` and `TEMPERATURE_INFO`, and plan one update pass as a
  sequence of steps; `record` holds the step types and decides how a pass
  goes on after each step; `monitor` and `policy` pace the two daemon loops;
  `schedule` holds their shared arithmetic; `text` writes integers and
  booleans; `clock` reads the local time.
- `app/` is the daemon around it: command line, logging, the platform
  devices, the database tables and the async loops.
- `tests/` exercises the library on concrete values.
