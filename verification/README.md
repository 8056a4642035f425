# teams-usb-fix

Some USB audio devices fail to give their string descriptors. Microsoft Teams
takes each failure for a change of devices, and its audio breaks down. This
project answers the failed requests with a string descriptor of its own, from a
hook on `DeviceIoControl` inside Teams.

- `src/` is the verified library: what the hook decides and answers
  (`hook`, `serial`, `usb`), the search for broken devices (`hubs`,
  `preflight`), how the fix gets into Teams and stays there (`inject`,
  `injector`, `watcher`, `lifecycle`), and what is shown around it (`logging`,
  `tray`, `service`). The steps of everything that talks to Windows are state
  machines that take the outcome of one step and name the next.
- `app/` makes the calls to Windows, one for each step.
- `tests/` runs the library on concrete values.

Proof functions whose names begin with `law_` state what holds of several
functions together, or of a whole run.
